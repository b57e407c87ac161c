//! Textual names of subdivisions and grids: `t16`, `t8t`, `t8q`,
//! `t16p`. Names print in lower case and parse case-insensitively.

use vstd::prelude::*;
use crate::text::{
    all_digits, is_all_digits, nat_decimal, parse_int, parse_int_spec, push_char, push_u64,
    slice_chars, lemma_nat_decimal_digits, lemma_parse_int_nat_decimal, IntErrorKind,
};
use crate::time::{grid_n, grid_of, grid_q, grid_t, lemma_grid_components, Grid, TBase};

verus! {

/// The denominator a subdivision is named after: 1 for `T1` up to 256.
pub open spec fn tbase_num(b: TBase) -> nat {
    match b {
        TBase::T1 => 1,
        TBase::T2 => 2,
        TBase::T4 => 4,
        TBase::T8 => 8,
        TBase::T16 => 16,
        TBase::T32 => 32,
        TBase::T64 => 64,
        TBase::T128 => 128,
        TBase::T256 => 256,
    }
}

/// The subdivision named after denominator `v`, if any.
pub open spec fn tbase_of_num(v: nat) -> Option<TBase> {
    if v == 1 {
        Some(TBase::T1)
    } else if v == 2 {
        Some(TBase::T2)
    } else if v == 4 {
        Some(TBase::T4)
    } else if v == 8 {
        Some(TBase::T8)
    } else if v == 16 {
        Some(TBase::T16)
    } else if v == 32 {
        Some(TBase::T32)
    } else if v == 64 {
        Some(TBase::T64)
    } else if v == 128 {
        Some(TBase::T128)
    } else if v == 256 {
        Some(TBase::T256)
    } else {
        None
    }
}

/// The printed name of a subdivision: `t` and its denominator.
pub open spec fn tbase_name(b: TBase) -> Seq<char> {
    seq!['t'] + nat_decimal(tbase_num(b))
}

/// The denominator a grid is named after: a tuplet grid subdividing
/// `T{n}` is named `T{2n}`.
pub open spec fn grid_num(g: Grid) -> nat {
    if grid_t(g) || grid_q(g) {
        2 * tbase_num(grid_n(g))
    } else {
        tbase_num(grid_n(g))
    }
}

/// The tuplet suffix of a grid's name: `t`, `q`, `p` (both) or none.
pub open spec fn grid_suffix(g: Grid) -> Seq<char> {
    if grid_t(g) && grid_q(g) {
        seq!['p']
    } else if grid_t(g) {
        seq!['t']
    } else if grid_q(g) {
        seq!['q']
    } else {
        Seq::empty()
    }
}

/// The printed name of a grid, in lower case.
pub open spec fn grid_name(g: Grid) -> Seq<char> {
    seq!['t'] + nat_decimal(grid_num(g)) + grid_suffix(g)
}

/// `c` is the letter `t` in either case.
pub open spec fn is_t(c: char) -> bool {
    c == 't' || c == 'T'
}

/// Tuplet code of a trailing name character: 1 for `t`, 2 for `q`,
/// 3 for `p` (either case), 0 for anything else.
pub open spec fn suffix_code(c: char) -> nat {
    if c == 't' || c == 'T' {
        1
    } else if c == 'q' || c == 'Q' {
        2
    } else if c == 'p' || c == 'P' {
        3
    } else {
        0
    }
}

/// The value of a non-empty run of decimal digits, if it fits in `u64`.
pub open spec fn digits_value(s: Seq<char>) -> Option<nat> {
    if s.len() > 0 && all_digits(s) {
        match parse_int_spec(s, 0, u64::MAX as int) {
            Ok(v) => Some(v as nat),
            Err(_) => None,
        }
    } else {
        None
    }
}

/// Parse a subdivision name: `t` or `T` followed by its denominator.
pub open spec fn tbase_from_name(s: Seq<char>) -> Option<TBase> {
    if s.len() >= 2 && is_t(s[0]) {
        match digits_value(s.subrange(1, s.len() as int)) {
            Some(v) => tbase_of_num(v),
            None => None,
        }
    } else {
        None
    }
}

/// The grid with denominator `v` and tuplet code `code`, if any.
pub open spec fn grid_of_num(v: nat, code: nat) -> Option<Grid> {
    if code == 0 {
        match tbase_of_num(v) {
            Some(b) => Some(grid_of(b, false, false)),
            None => None,
        }
    } else if v % 2 == 0 {
        match tbase_of_num(v / 2) {
            Some(b) => Some(grid_of(b, code == 1 || code == 3, code == 2 || code == 3)),
            None => None,
        }
    } else {
        None
    }
}

/// Parse a grid name, case-insensitively: `t`, the denominator and an
/// optional tuplet suffix.
pub open spec fn grid_from_name(s: Seq<char>) -> Option<Grid> {
    if s.len() >= 2 && is_t(s[0]) {
        let code = suffix_code(s[s.len() - 1]);
        let digits = if code == 0 {
            s.subrange(1, s.len() as int)
        } else {
            s.subrange(1, s.len() - 1)
        };
        match digits_value(digits) {
            Some(v) => grid_of_num(v, code),
            None => None,
        }
    } else {
        None
    }
}

fn tbase_of_value(v: u64) -> (r: Option<TBase>)
    ensures
        r == tbase_of_num(v as nat),
{
    if v == 1 {
        Some(TBase::T1)
    } else if v == 2 {
        Some(TBase::T2)
    } else if v == 4 {
        Some(TBase::T4)
    } else if v == 8 {
        Some(TBase::T8)
    } else if v == 16 {
        Some(TBase::T16)
    } else if v == 32 {
        Some(TBase::T32)
    } else if v == 64 {
        Some(TBase::T64)
    } else if v == 128 {
        Some(TBase::T128)
    } else if v == 256 {
        Some(TBase::T256)
    } else {
        None
    }
}

fn digits_of(s: &[char], from: usize, to: usize) -> (r: Option<u64>)
    requires
        from <= to <= s@.len(),
    ensures
        match r {
            Some(v) => digits_value(s@.subrange(from as int, to as int)) == Some(v as nat),
            None => digits_value(s@.subrange(from as int, to as int)) is None,
        },
{
    let d = slice_chars(s, from, to);
    if d.len() == 0 || !is_all_digits(d.as_slice()) {
        return None;
    }
    match parse_int(d.as_slice(), 0, 0xffff_ffff_ffff_ffff) {
        Ok(v) => Some(v as u64),
        Err(_) => None,
    }
}

impl TBase {
    /// The denominator the subdivision is named after.
    pub fn num(self) -> (n: u64)
        ensures
            n as nat == tbase_num(self),
    {
        match self {
            TBase::T1 => 1,
            TBase::T2 => 2,
            TBase::T4 => 4,
            TBase::T8 => 8,
            TBase::T16 => 16,
            TBase::T32 => 32,
            TBase::T64 => 64,
            TBase::T128 => 128,
            TBase::T256 => 256,
        }
    }

    /// The lower-case name, `t16` for `T16`.
    pub fn name(self) -> (s: String)
        ensures
            s@ == tbase_name(self),
    {
        let mut s = String::new();
        push_char(&mut s, 't');
        push_u64(&mut s, self.num());
        s
    }

    /// Parse a subdivision name, case-insensitively.
    pub fn from_name(s: &[char]) -> (r: Option<TBase>)
        ensures
            r == tbase_from_name(s@),
    {
        if s.len() < 2 || !(s[0] == 't' || s[0] == 'T') {
            return None;
        }
        match digits_of(s, 1, s.len()) {
            Some(v) => tbase_of_value(v),
            None => None,
        }
    }
}

impl Grid {
    /// The denominator the grid is named after.
    pub fn num(self) -> (n: u64)
        ensures
            n as nat == grid_num(self),
    {
        let b = self.n().num();
        if self.t() || self.q() {
            2 * b
        } else {
            b
        }
    }

    /// The lower-case name, e.g. `t16`, `t8t`, `t8q`, `t16p`.
    pub fn name(self) -> (s: String)
        ensures
            s@ == grid_name(self),
    {
        let mut s = String::new();
        push_char(&mut s, 't');
        push_u64(&mut s, self.num());
        let t = self.t();
        let q = self.q();
        if t && q {
            push_char(&mut s, 'p');
        } else if t {
            push_char(&mut s, 't');
        } else if q {
            push_char(&mut s, 'q');
        }
        assert(s@ =~= grid_name(self));
        s
    }

    /// Parse a grid name, case-insensitively.
    pub fn from_name(s: &[char]) -> (r: Option<Grid>)
        ensures
            r == grid_from_name(s@),
    {
        let len = s.len();
        if len < 2 || !(s[0] == 't' || s[0] == 'T') {
            return None;
        }
        let last = s[len - 1];
        let code: u8 = if last == 't' || last == 'T' {
            1
        } else if last == 'q' || last == 'Q' {
            2
        } else if last == 'p' || last == 'P' {
            3
        } else {
            0
        };
        let to = if code == 0 { len } else { len - 1 };
        let v = match digits_of(s, 1, to) {
            Some(v) => v,
            None => { return None; },
        };
        if code == 0 {
            match tbase_of_value(v) {
                Some(b) => Some(Grid::from_parts(b, false, false)),
                None => None,
            }
        } else if v % 2 == 0 {
            match tbase_of_value(v / 2) {
                Some(b) => Some(Grid::from_parts(b, code == 1 || code == 3, code == 2 || code == 3)),
                None => None,
            }
        } else {
            None
        }
    }
}

/// Printing a subdivision's name and parsing it back gives the same
/// subdivision.
pub proof fn lemma_tbase_name_round_trip(b: TBase)
    ensures
        tbase_from_name(tbase_name(b)) == Some(b),
{
    let n = tbase_num(b);
    let s = tbase_name(b);
    lemma_nat_decimal_digits(n);
    lemma_parse_int_nat_decimal(n, 0, u64::MAX as int);
    assert(s.subrange(1, s.len() as int) =~= nat_decimal(n));
}

/// Printing a grid's name and parsing it back gives the same grid.
pub proof fn lemma_grid_name_round_trip(g: Grid)
    ensures
        grid_from_name(grid_name(g)) == Some(g),
{
    let n = grid_num(g);
    let d = nat_decimal(n);
    let s = grid_name(g);
    lemma_nat_decimal_digits(n);
    lemma_parse_int_nat_decimal(n, 0, u64::MAX as int);
    lemma_grid_components(g);
    if grid_t(g) || grid_q(g) {
        assert(s.subrange(1, s.len() - 1) =~= d);
        assert(s[s.len() - 1] == grid_suffix(g)[0]);
    } else {
        assert(s =~= seq!['t'] + d);
        assert(s.subrange(1, s.len() as int) =~= d);
        assert(s[s.len() - 1] == d[d.len() - 1]);
        assert(suffix_code(s[s.len() - 1]) == 0);
    }
}

} // verus!
