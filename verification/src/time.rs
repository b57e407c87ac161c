//! Grid-and-tick algebra: the master tick counter, the binary
//! subdivision axis and the 36-element divisibility lattice of grids.
//!
//! A bar holds 3840 master ticks (960 per quarter note). A grid step
//! divides that bar by a power of two, optionally by 3 (triplet) and
//! optionally by 5 (quintuplet); the grids are ordered by divisibility
//! of their step lengths, which makes them a bounded distributive
//! (bi-)Heyting lattice.

use vstd::prelude::*;

verus! {

/// Master ticks per quarter note.
pub const PPQN: u64 = 960;

/// Master ticks per bar (four quarter notes).
pub const TICKS_PER_BAR: u32 = 3840;

/// A master tick index.
#[derive(Copy, Clone, Debug, PartialEq, Eq, Structural, PartialOrd, Ord, Hash, Default)]
pub struct Tick(pub u64);

/// Binary subdivision of the bar: `T1` is a whole bar, `T256` a
/// 256th note.
#[derive(Copy, Clone, Debug, PartialEq, Eq, Structural, Hash)]
pub enum TBase {
    T1,
    T2,
    T4,
    T8,
    T16,
    T32,
    T64,
    T128,
    T256,
}

/// Index `k` of a binary subdivision: the step is `3840 / 2^k` ticks.
pub open spec fn tbase_index(b: TBase) -> nat {
    match b {
        TBase::T1 => 0,
        TBase::T2 => 1,
        TBase::T4 => 2,
        TBase::T8 => 3,
        TBase::T16 => 4,
        TBase::T32 => 5,
        TBase::T64 => 6,
        TBase::T128 => 7,
        TBase::T256 => 8,
    }
}

/// The subdivision with index `k` (`k <= 8`).
pub open spec fn tbase_of_index(k: nat) -> TBase {
    if k == 0 {
        TBase::T1
    } else if k == 1 {
        TBase::T2
    } else if k == 2 {
        TBase::T4
    } else if k == 3 {
        TBase::T8
    } else if k == 4 {
        TBase::T16
    } else if k == 5 {
        TBase::T32
    } else if k == 6 {
        TBase::T64
    } else if k == 7 {
        TBase::T128
    } else {
        TBase::T256
    }
}

/// `2^k` for the small exponents the lattice uses.
pub open spec fn pow2(k: nat) -> nat
    decreases k,
{
    if k == 0 {
        1
    } else {
        2 * pow2((k - 1) as nat)
    }
}

/// Step length of a binary subdivision, in master ticks: `3840 / 2^k`.
pub open spec fn tbase_ticks(b: TBase) -> nat {
    match b {
        TBase::T1 => 3840,
        TBase::T2 => 1920,
        TBase::T4 => 960,
        TBase::T8 => 480,
        TBase::T16 => 240,
        TBase::T32 => 120,
        TBase::T64 => 60,
        TBase::T128 => 30,
        TBase::T256 => 15,
    }
}

/// The `2^k`-th subdivision of a bar of four 960-tick quarters is
/// `3840 / 2^k` ticks long: `T4` is a quarter (960), `T8` an eighth
/// (480).
pub proof fn lemma_tbase_ticks_divide_bar(b: TBase)
    ensures
        tbase_ticks(b) * pow2(tbase_index(b)) == 3840,
        tbase_ticks(b) * pow2(tbase_index(b)) == TICKS_PER_BAR,
{
    reveal_with_fuel(pow2, 9);
}

pub proof fn lemma_tbase_index_round_trip(b: TBase)
    ensures
        tbase_index(b) <= 8,
        tbase_of_index(tbase_index(b)) == b,
{
}

impl TBase {
    /// All nine subdivisions, coarsest first.
    pub const ALL: [TBase; 9] = [
        TBase::T1,
        TBase::T2,
        TBase::T4,
        TBase::T8,
        TBase::T16,
        TBase::T32,
        TBase::T64,
        TBase::T128,
        TBase::T256,
    ];

    /// The subdivision index `k` (the step is `3840 / 2^k` ticks).
    pub fn index(self) -> (k: u8)
        ensures
            k as nat == tbase_index(self),
    {
        match self {
            TBase::T1 => 0,
            TBase::T2 => 1,
            TBase::T4 => 2,
            TBase::T8 => 3,
            TBase::T16 => 4,
            TBase::T32 => 5,
            TBase::T64 => 6,
            TBase::T128 => 7,
            TBase::T256 => 8,
        }
    }

    /// The subdivision with index `k`.
    pub fn from_index(k: u8) -> (b: TBase)
        requires
            k <= 8,
        ensures
            b == tbase_of_index(k as nat),
            tbase_index(b) == k,
    {
        match k {
            0 => TBase::T1,
            1 => TBase::T2,
            2 => TBase::T4,
            3 => TBase::T8,
            4 => TBase::T16,
            5 => TBase::T32,
            6 => TBase::T64,
            7 => TBase::T128,
            _ => TBase::T256,
        }
    }

    /// Step length in master ticks: 3840 for `T1` down to 15 for `T256`.
    pub fn tick_count(self) -> (n: u32)
        ensures
            n as nat == tbase_ticks(self),
            n > 0,
    {
        match self {
            TBase::T1 => 3840,
            TBase::T2 => 1920,
            TBase::T4 => 960,
            TBase::T8 => 480,
            TBase::T16 => 240,
            TBase::T32 => 120,
            TBase::T64 => 60,
            TBase::T128 => 30,
            TBase::T256 => 15,
        }
    }
}

/// A grid: the step `3840 / 2^k` ticks of a binary subdivision,
/// divided further by 3 for a triplet and by 5 for a quintuplet. Plain
/// grids are named `T{2^k}`; tuplet grids are named after the note
/// value they subdivide, `T{2^(k+1)}` with the suffix `T` (triplet),
/// `Q` (quintuplet) or `P` (both).
#[derive(Copy, Clone, Debug, PartialEq, Eq, Structural, Hash)]
pub enum Grid {
    T1,
    T2,
    T4,
    T8,
    T16,
    T32,
    T64,
    T128,
    T256,
    T2T,
    T4T,
    T8T,
    T16T,
    T32T,
    T64T,
    T128T,
    T256T,
    T512T,
    T2Q,
    T4Q,
    T8Q,
    T16Q,
    T32Q,
    T64Q,
    T128Q,
    T256Q,
    T512Q,
    T2P,
    T4P,
    T8P,
    T16P,
    T32P,
    T64P,
    T128P,
    T256P,
    T512P,
}

/// The binary subdivision of a grid.
pub open spec fn grid_n(g: Grid) -> TBase {
    match g {
        Grid::T1 => TBase::T1,
        Grid::T2 => TBase::T2,
        Grid::T4 => TBase::T4,
        Grid::T8 => TBase::T8,
        Grid::T16 => TBase::T16,
        Grid::T32 => TBase::T32,
        Grid::T64 => TBase::T64,
        Grid::T128 => TBase::T128,
        Grid::T256 => TBase::T256,
        Grid::T2T => TBase::T1,
        Grid::T4T => TBase::T2,
        Grid::T8T => TBase::T4,
        Grid::T16T => TBase::T8,
        Grid::T32T => TBase::T16,
        Grid::T64T => TBase::T32,
        Grid::T128T => TBase::T64,
        Grid::T256T => TBase::T128,
        Grid::T512T => TBase::T256,
        Grid::T2Q => TBase::T1,
        Grid::T4Q => TBase::T2,
        Grid::T8Q => TBase::T4,
        Grid::T16Q => TBase::T8,
        Grid::T32Q => TBase::T16,
        Grid::T64Q => TBase::T32,
        Grid::T128Q => TBase::T64,
        Grid::T256Q => TBase::T128,
        Grid::T512Q => TBase::T256,
        Grid::T2P => TBase::T1,
        Grid::T4P => TBase::T2,
        Grid::T8P => TBase::T4,
        Grid::T16P => TBase::T8,
        Grid::T32P => TBase::T16,
        Grid::T64P => TBase::T32,
        Grid::T128P => TBase::T64,
        Grid::T256P => TBase::T128,
        Grid::T512P => TBase::T256,
    }
}

/// Whether a grid carries the triplet factor.
pub open spec fn grid_t(g: Grid) -> bool {
    match g {
        Grid::T1 => false,
        Grid::T2 => false,
        Grid::T4 => false,
        Grid::T8 => false,
        Grid::T16 => false,
        Grid::T32 => false,
        Grid::T64 => false,
        Grid::T128 => false,
        Grid::T256 => false,
        Grid::T2T => true,
        Grid::T4T => true,
        Grid::T8T => true,
        Grid::T16T => true,
        Grid::T32T => true,
        Grid::T64T => true,
        Grid::T128T => true,
        Grid::T256T => true,
        Grid::T512T => true,
        Grid::T2Q => false,
        Grid::T4Q => false,
        Grid::T8Q => false,
        Grid::T16Q => false,
        Grid::T32Q => false,
        Grid::T64Q => false,
        Grid::T128Q => false,
        Grid::T256Q => false,
        Grid::T512Q => false,
        Grid::T2P => true,
        Grid::T4P => true,
        Grid::T8P => true,
        Grid::T16P => true,
        Grid::T32P => true,
        Grid::T64P => true,
        Grid::T128P => true,
        Grid::T256P => true,
        Grid::T512P => true,
    }
}

/// Whether a grid carries the quintuplet factor.
pub open spec fn grid_q(g: Grid) -> bool {
    match g {
        Grid::T1 => false,
        Grid::T2 => false,
        Grid::T4 => false,
        Grid::T8 => false,
        Grid::T16 => false,
        Grid::T32 => false,
        Grid::T64 => false,
        Grid::T128 => false,
        Grid::T256 => false,
        Grid::T2T => false,
        Grid::T4T => false,
        Grid::T8T => false,
        Grid::T16T => false,
        Grid::T32T => false,
        Grid::T64T => false,
        Grid::T128T => false,
        Grid::T256T => false,
        Grid::T512T => false,
        Grid::T2Q => true,
        Grid::T4Q => true,
        Grid::T8Q => true,
        Grid::T16Q => true,
        Grid::T32Q => true,
        Grid::T64Q => true,
        Grid::T128Q => true,
        Grid::T256Q => true,
        Grid::T512Q => true,
        Grid::T2P => true,
        Grid::T4P => true,
        Grid::T8P => true,
        Grid::T16P => true,
        Grid::T32P => true,
        Grid::T64P => true,
        Grid::T128P => true,
        Grid::T256P => true,
        Grid::T512P => true,
    }
}

/// The grid with the given components.
pub open spec fn grid_of(n: TBase, t: bool, q: bool) -> Grid {
    if !t && !q {
        match n {
            TBase::T1 => Grid::T1,
            TBase::T2 => Grid::T2,
            TBase::T4 => Grid::T4,
            TBase::T8 => Grid::T8,
            TBase::T16 => Grid::T16,
            TBase::T32 => Grid::T32,
            TBase::T64 => Grid::T64,
            TBase::T128 => Grid::T128,
            TBase::T256 => Grid::T256,
        }
    } else if t && !q {
        match n {
            TBase::T1 => Grid::T2T,
            TBase::T2 => Grid::T4T,
            TBase::T4 => Grid::T8T,
            TBase::T8 => Grid::T16T,
            TBase::T16 => Grid::T32T,
            TBase::T32 => Grid::T64T,
            TBase::T64 => Grid::T128T,
            TBase::T128 => Grid::T256T,
            TBase::T256 => Grid::T512T,
        }
    } else if !t && q {
        match n {
            TBase::T1 => Grid::T2Q,
            TBase::T2 => Grid::T4Q,
            TBase::T4 => Grid::T8Q,
            TBase::T8 => Grid::T16Q,
            TBase::T16 => Grid::T32Q,
            TBase::T32 => Grid::T64Q,
            TBase::T64 => Grid::T128Q,
            TBase::T128 => Grid::T256Q,
            TBase::T256 => Grid::T512Q,
        }
    } else {
        match n {
            TBase::T1 => Grid::T2P,
            TBase::T2 => Grid::T4P,
            TBase::T4 => Grid::T8P,
            TBase::T8 => Grid::T16P,
            TBase::T16 => Grid::T32P,
            TBase::T32 => Grid::T64P,
            TBase::T64 => Grid::T128P,
            TBase::T128 => Grid::T256P,
            TBase::T256 => Grid::T512P,
        }
    }
}

pub proof fn lemma_grid_components(g: Grid)
    ensures
        grid_of(grid_n(g), grid_t(g), grid_q(g)) == g,
{
}

pub proof fn lemma_grid_of_components(n: TBase, t: bool, q: bool)
    ensures
        grid_n(grid_of(n, t, q)) == n,
        grid_t(grid_of(n, t, q)) == t,
        grid_q(grid_of(n, t, q)) == q,
{
}

/// Step length of a grid in master ticks.
pub open spec fn grid_ticks(g: Grid) -> nat {
    tbase_ticks(grid_n(g)) / (if grid_t(g) { 3nat } else { 1nat }) / (if grid_q(g) {
        5nat
    } else {
        1nat
    })
}

/// Divisibility order: `a` is below `b` when `a`'s step divides `b`'s
/// step (`a` is the finer grid). Componentwise on the exponents of 2,
/// 3 and 5 in the step length.
pub open spec fn grid_le(a: Grid, b: Grid) -> bool {
    &&& tbase_index(grid_n(a)) >= tbase_index(grid_n(b))
    &&& (grid_t(a) || !grid_t(b))
    &&& (grid_q(a) || !grid_q(b))
}

/// The finer of two binary subdivisions.
pub open spec fn tbase_finer(a: TBase, b: TBase) -> TBase {
    if tbase_index(a) >= tbase_index(b) {
        a
    } else {
        b
    }
}

/// The coarser of two binary subdivisions.
pub open spec fn tbase_coarser(a: TBase, b: TBase) -> TBase {
    if tbase_index(a) <= tbase_index(b) {
        a
    } else {
        b
    }
}

/// Greatest lower bound: the common refinement of two grids.
pub open spec fn grid_meet(a: Grid, b: Grid) -> Grid {
    grid_of(
        tbase_finer(grid_n(a), grid_n(b)),
        grid_t(a) || grid_t(b),
        grid_q(a) || grid_q(b),
    )
}

/// Least upper bound: the grid both grids align to.
pub open spec fn grid_join(a: Grid, b: Grid) -> Grid {
    grid_of(
        tbase_coarser(grid_n(a), grid_n(b)),
        grid_t(a) && grid_t(b),
        grid_q(a) && grid_q(b),
    )
}

/// Heyting implication `a -> b`: the largest `x` with `meet(x, a) <= b`.
pub open spec fn grid_imp(a: Grid, b: Grid) -> Grid {
    grid_of(
        if tbase_index(grid_n(a)) >= tbase_index(grid_n(b)) {
            TBase::T1
        } else {
            grid_n(b)
        },
        !grid_t(a) && grid_t(b),
        !grid_q(a) && grid_q(b),
    )
}

/// Co-Heyting coimplication: the smallest `x` with `a <= join(b, x)`.
pub open spec fn grid_coimp(a: Grid, b: Grid) -> Grid {
    grid_of(
        if tbase_index(grid_n(a)) >= tbase_index(grid_n(b)) {
            TBase::T256
        } else {
            grid_n(a)
        },
        grid_t(a) || !grid_t(b),
        grid_q(a) || !grid_q(b),
    )
}

/// Pseudo-complement `a -> bottom`.
pub open spec fn grid_neg(a: Grid) -> Grid {
    grid_imp(a, Grid::T512P)
}

impl Grid {
    /// All 36 grids: plain, triplet, quintuplet, both.
    pub const ALL: [Grid; 36] = [
        Grid::T1,
        Grid::T2,
        Grid::T4,
        Grid::T8,
        Grid::T16,
        Grid::T32,
        Grid::T64,
        Grid::T128,
        Grid::T256,
        Grid::T2T,
        Grid::T4T,
        Grid::T8T,
        Grid::T16T,
        Grid::T32T,
        Grid::T64T,
        Grid::T128T,
        Grid::T256T,
        Grid::T512T,
        Grid::T2Q,
        Grid::T4Q,
        Grid::T8Q,
        Grid::T16Q,
        Grid::T32Q,
        Grid::T64Q,
        Grid::T128Q,
        Grid::T256Q,
        Grid::T512Q,
        Grid::T2P,
        Grid::T4P,
        Grid::T8P,
        Grid::T16P,
        Grid::T32P,
        Grid::T64P,
        Grid::T128P,
        Grid::T256P,
        Grid::T512P,
    ];

    /// The binary subdivision of this grid.
    pub fn n(self) -> (r: TBase)
        ensures
            r == grid_n(self),
    {
        match self {
            Grid::T1 => TBase::T1,
            Grid::T2 => TBase::T2,
            Grid::T4 => TBase::T4,
            Grid::T8 => TBase::T8,
            Grid::T16 => TBase::T16,
            Grid::T32 => TBase::T32,
            Grid::T64 => TBase::T64,
            Grid::T128 => TBase::T128,
            Grid::T256 => TBase::T256,
            Grid::T2T => TBase::T1,
            Grid::T4T => TBase::T2,
            Grid::T8T => TBase::T4,
            Grid::T16T => TBase::T8,
            Grid::T32T => TBase::T16,
            Grid::T64T => TBase::T32,
            Grid::T128T => TBase::T64,
            Grid::T256T => TBase::T128,
            Grid::T512T => TBase::T256,
            Grid::T2Q => TBase::T1,
            Grid::T4Q => TBase::T2,
            Grid::T8Q => TBase::T4,
            Grid::T16Q => TBase::T8,
            Grid::T32Q => TBase::T16,
            Grid::T64Q => TBase::T32,
            Grid::T128Q => TBase::T64,
            Grid::T256Q => TBase::T128,
            Grid::T512Q => TBase::T256,
            Grid::T2P => TBase::T1,
            Grid::T4P => TBase::T2,
            Grid::T8P => TBase::T4,
            Grid::T16P => TBase::T8,
            Grid::T32P => TBase::T16,
            Grid::T64P => TBase::T32,
            Grid::T128P => TBase::T64,
            Grid::T256P => TBase::T128,
            Grid::T512P => TBase::T256,
        }
    }

    /// Whether this grid carries the triplet factor.
    pub fn t(self) -> (r: bool)
        ensures
            r == grid_t(self),
    {
        match self {
            Grid::T1 => false,
            Grid::T2 => false,
            Grid::T4 => false,
            Grid::T8 => false,
            Grid::T16 => false,
            Grid::T32 => false,
            Grid::T64 => false,
            Grid::T128 => false,
            Grid::T256 => false,
            Grid::T2T => true,
            Grid::T4T => true,
            Grid::T8T => true,
            Grid::T16T => true,
            Grid::T32T => true,
            Grid::T64T => true,
            Grid::T128T => true,
            Grid::T256T => true,
            Grid::T512T => true,
            Grid::T2Q => false,
            Grid::T4Q => false,
            Grid::T8Q => false,
            Grid::T16Q => false,
            Grid::T32Q => false,
            Grid::T64Q => false,
            Grid::T128Q => false,
            Grid::T256Q => false,
            Grid::T512Q => false,
            Grid::T2P => true,
            Grid::T4P => true,
            Grid::T8P => true,
            Grid::T16P => true,
            Grid::T32P => true,
            Grid::T64P => true,
            Grid::T128P => true,
            Grid::T256P => true,
            Grid::T512P => true,
        }
    }

    /// Whether this grid carries the quintuplet factor.
    pub fn q(self) -> (r: bool)
        ensures
            r == grid_q(self),
    {
        match self {
            Grid::T1 => false,
            Grid::T2 => false,
            Grid::T4 => false,
            Grid::T8 => false,
            Grid::T16 => false,
            Grid::T32 => false,
            Grid::T64 => false,
            Grid::T128 => false,
            Grid::T256 => false,
            Grid::T2T => false,
            Grid::T4T => false,
            Grid::T8T => false,
            Grid::T16T => false,
            Grid::T32T => false,
            Grid::T64T => false,
            Grid::T128T => false,
            Grid::T256T => false,
            Grid::T512T => false,
            Grid::T2Q => true,
            Grid::T4Q => true,
            Grid::T8Q => true,
            Grid::T16Q => true,
            Grid::T32Q => true,
            Grid::T64Q => true,
            Grid::T128Q => true,
            Grid::T256Q => true,
            Grid::T512Q => true,
            Grid::T2P => true,
            Grid::T4P => true,
            Grid::T8P => true,
            Grid::T16P => true,
            Grid::T32P => true,
            Grid::T64P => true,
            Grid::T128P => true,
            Grid::T256P => true,
            Grid::T512P => true,
        }
    }

    /// The grid with the given components.
    pub fn from_parts(n: TBase, t: bool, q: bool) -> (g: Grid)
        ensures
            g == grid_of(n, t, q),
    {
        if !t && !q {
            match n {
                TBase::T1 => Grid::T1,
                TBase::T2 => Grid::T2,
                TBase::T4 => Grid::T4,
                TBase::T8 => Grid::T8,
                TBase::T16 => Grid::T16,
                TBase::T32 => Grid::T32,
                TBase::T64 => Grid::T64,
                TBase::T128 => Grid::T128,
                TBase::T256 => Grid::T256,
            }
        } else if t && !q {
            match n {
                TBase::T1 => Grid::T2T,
                TBase::T2 => Grid::T4T,
                TBase::T4 => Grid::T8T,
                TBase::T8 => Grid::T16T,
                TBase::T16 => Grid::T32T,
                TBase::T32 => Grid::T64T,
                TBase::T64 => Grid::T128T,
                TBase::T128 => Grid::T256T,
                TBase::T256 => Grid::T512T,
            }
        } else if !t && q {
            match n {
                TBase::T1 => Grid::T2Q,
                TBase::T2 => Grid::T4Q,
                TBase::T4 => Grid::T8Q,
                TBase::T8 => Grid::T16Q,
                TBase::T16 => Grid::T32Q,
                TBase::T32 => Grid::T64Q,
                TBase::T64 => Grid::T128Q,
                TBase::T128 => Grid::T256Q,
                TBase::T256 => Grid::T512Q,
            }
        } else {
            match n {
                TBase::T1 => Grid::T2P,
                TBase::T2 => Grid::T4P,
                TBase::T4 => Grid::T8P,
                TBase::T8 => Grid::T16P,
                TBase::T16 => Grid::T32P,
                TBase::T32 => Grid::T64P,
                TBase::T64 => Grid::T128P,
                TBase::T128 => Grid::T256P,
                TBase::T256 => Grid::T512P,
            }
        }
    }

    /// Step length in master ticks.
    pub fn tick_count(self) -> (n: u32)
        ensures
            n as nat == grid_ticks(self),
            n > 0,
    {
        let base = self.n().tick_count();
        let a = if self.t() { base / 3 } else { base };
        if self.q() { a / 5 } else { a }
    }

    /// Divisibility preorder: `self` is the finer grid.
    pub fn ple(&self, other: &Grid) -> (r: bool)
        ensures
            r == grid_le(*self, *other),
    {
        self.n().index() >= other.n().index() && (self.t() || !other.t()) && (self.q()
            || !other.q())
    }

    /// Meet (common refinement).
    pub fn meet(&self, other: &Grid) -> (r: Grid)
        ensures
            r == grid_meet(*self, *other),
    {
        let n = if self.n().index() >= other.n().index() { self.n() } else { other.n() };
        Grid::from_parts(n, self.t() || other.t(), self.q() || other.q())
    }

    /// Join (alignment).
    pub fn join(&self, other: &Grid) -> (r: Grid)
        ensures
            r == grid_join(*self, *other),
    {
        let n = if self.n().index() <= other.n().index() { self.n() } else { other.n() };
        Grid::from_parts(n, self.t() && other.t(), self.q() && other.q())
    }

    /// Heyting implication.
    pub fn imp(&self, other: &Grid) -> (r: Grid)
        ensures
            r == grid_imp(*self, *other),
    {
        let n = if self.n().index() >= other.n().index() { TBase::T1 } else { other.n() };
        Grid::from_parts(n, !self.t() && other.t(), !self.q() && other.q())
    }

    /// Co-Heyting coimplication.
    pub fn coimp(&self, other: &Grid) -> (r: Grid)
        ensures
            r == grid_coimp(*self, *other),
    {
        let n = if self.n().index() >= other.n().index() { TBase::T256 } else { self.n() };
        Grid::from_parts(n, self.t() || !other.t(), self.q() || !other.q())
    }

    /// Pseudo-complement.
    pub fn neg(&self) -> (r: Grid)
        ensures
            r == grid_neg(*self),
    {
        self.imp(&Grid::T512P)
    }
}

/// The divisibility order on grids is a partial order.
pub proof fn lemma_grid_le_partial_order(a: Grid, b: Grid, c: Grid)
    ensures
        grid_le(a, a),
        grid_le(a, b) && grid_le(b, a) ==> a == b,
        grid_le(a, b) && grid_le(b, c) ==> grid_le(a, c),
{
    lemma_grid_components(a);
    lemma_grid_components(b);
    if grid_le(a, b) && grid_le(b, a) {
        assert(tbase_index(grid_n(a)) == tbase_index(grid_n(b)));
        lemma_tbase_index_round_trip(grid_n(a));
        lemma_tbase_index_round_trip(grid_n(b));
    }
}

/// `T512P` (one master tick) is the bottom and `T1` (the bar) the top.
pub proof fn lemma_grid_bounds(a: Grid)
    ensures
        grid_le(Grid::T512P, a),
        grid_le(a, Grid::T1),
{
    lemma_tbase_index_round_trip(grid_n(a));
}

/// Meet is the greatest lower bound and join the least upper bound.
pub proof fn lemma_grid_meet_join_bounds(a: Grid, b: Grid, c: Grid)
    ensures
        grid_le(grid_meet(a, b), a),
        grid_le(grid_meet(a, b), b),
        grid_le(c, a) && grid_le(c, b) ==> grid_le(c, grid_meet(a, b)),
        grid_le(a, grid_join(a, b)),
        grid_le(b, grid_join(a, b)),
        grid_le(a, c) && grid_le(b, c) ==> grid_le(grid_join(a, b), c),
{
    lemma_grid_of_components(
        tbase_finer(grid_n(a), grid_n(b)),
        grid_t(a) || grid_t(b),
        grid_q(a) || grid_q(b),
    );
    lemma_grid_of_components(
        tbase_coarser(grid_n(a), grid_n(b)),
        grid_t(a) && grid_t(b),
        grid_q(a) && grid_q(b),
    );
}

/// Meet and join are commutative.
pub proof fn lemma_grid_commutative(a: Grid, b: Grid)
    ensures
        grid_meet(a, b) == grid_meet(b, a),
        grid_join(a, b) == grid_join(b, a),
{
    lemma_grid_meet_join_bounds(a, b, grid_meet(b, a));
    lemma_grid_meet_join_bounds(b, a, grid_meet(a, b));
    lemma_grid_le_partial_order(grid_meet(a, b), grid_meet(b, a), a);
    lemma_grid_meet_join_bounds(a, b, grid_join(b, a));
    lemma_grid_meet_join_bounds(b, a, grid_join(a, b));
    lemma_grid_le_partial_order(grid_join(a, b), grid_join(b, a), a);
}

/// Meet and join are associative.
pub proof fn lemma_grid_associative(a: Grid, b: Grid, c: Grid)
    ensures
        grid_meet(grid_meet(a, b), c) == grid_meet(a, grid_meet(b, c)),
        grid_join(grid_join(a, b), c) == grid_join(a, grid_join(b, c)),
{
    lemma_grid_components(a);
    lemma_grid_components(b);
    lemma_grid_components(c);
    lemma_grid_of_components(
        tbase_finer(grid_n(a), grid_n(b)),
        grid_t(a) || grid_t(b),
        grid_q(a) || grid_q(b),
    );
    lemma_grid_of_components(
        tbase_finer(grid_n(b), grid_n(c)),
        grid_t(b) || grid_t(c),
        grid_q(b) || grid_q(c),
    );
    lemma_grid_of_components(
        tbase_coarser(grid_n(a), grid_n(b)),
        grid_t(a) && grid_t(b),
        grid_q(a) && grid_q(b),
    );
    lemma_grid_of_components(
        tbase_coarser(grid_n(b), grid_n(c)),
        grid_t(b) && grid_t(c),
        grid_q(b) && grid_q(c),
    );
}

/// Absorption: meet and join undo each other.
pub proof fn lemma_grid_absorption(a: Grid, b: Grid)
    ensures
        grid_meet(a, grid_join(a, b)) == a,
        grid_join(a, grid_meet(a, b)) == a,
{
    lemma_grid_le_partial_order(a, a, a);
    lemma_grid_meet_join_bounds(a, b, a);
    lemma_grid_meet_join_bounds(a, grid_join(a, b), a);
    lemma_grid_le_partial_order(grid_meet(a, grid_join(a, b)), a, a);
    lemma_grid_meet_join_bounds(a, grid_meet(a, b), a);
    lemma_grid_le_partial_order(grid_join(a, grid_meet(a, b)), a, a);
}

proof fn lemma_components_determine(x: Grid, y: Grid)
    requires
        tbase_index(grid_n(x)) == tbase_index(grid_n(y)),
        grid_t(x) == grid_t(y),
        grid_q(x) == grid_q(y),
    ensures
        x == y,
{
    lemma_tbase_index_round_trip(grid_n(x));
    lemma_tbase_index_round_trip(grid_n(y));
    lemma_grid_components(x);
    lemma_grid_components(y);
}

proof fn lemma_meet_join_components(a: Grid, b: Grid)
    ensures
        tbase_index(grid_n(grid_meet(a, b))) == if tbase_index(grid_n(a)) >= tbase_index(
            grid_n(b),
        ) {
            tbase_index(grid_n(a))
        } else {
            tbase_index(grid_n(b))
        },
        grid_t(grid_meet(a, b)) == (grid_t(a) || grid_t(b)),
        grid_q(grid_meet(a, b)) == (grid_q(a) || grid_q(b)),
        tbase_index(grid_n(grid_join(a, b))) == if tbase_index(grid_n(a)) <= tbase_index(
            grid_n(b),
        ) {
            tbase_index(grid_n(a))
        } else {
            tbase_index(grid_n(b))
        },
        grid_t(grid_join(a, b)) == (grid_t(a) && grid_t(b)),
        grid_q(grid_join(a, b)) == (grid_q(a) && grid_q(b)),
{
    lemma_grid_of_components(
        tbase_finer(grid_n(a), grid_n(b)),
        grid_t(a) || grid_t(b),
        grid_q(a) || grid_q(b),
    );
    lemma_grid_of_components(
        tbase_coarser(grid_n(a), grid_n(b)),
        grid_t(a) && grid_t(b),
        grid_q(a) && grid_q(b),
    );
}

/// Meet distributes over join (the lattice is distributive).
pub proof fn lemma_grid_distributive(a: Grid, b: Grid, c: Grid)
    ensures
        grid_meet(a, grid_join(b, c)) == grid_join(grid_meet(a, b), grid_meet(a, c)),
        grid_join(a, grid_meet(b, c)) == grid_meet(grid_join(a, b), grid_join(a, c)),
{
    lemma_meet_join_components(b, c);
    lemma_meet_join_components(a, grid_join(b, c));
    lemma_meet_join_components(a, b);
    lemma_meet_join_components(a, c);
    lemma_meet_join_components(grid_meet(a, b), grid_meet(a, c));
    lemma_components_determine(
        grid_meet(a, grid_join(b, c)),
        grid_join(grid_meet(a, b), grid_meet(a, c)),
    );
    lemma_meet_join_components(a, grid_meet(b, c));
    lemma_meet_join_components(grid_join(a, b), grid_join(a, c));
    lemma_components_determine(
        grid_join(a, grid_meet(b, c)),
        grid_meet(grid_join(a, b), grid_join(a, c)),
    );
}

/// Heyting adjunction: `meet(x, a) <= b` exactly when `x <= (a -> b)`.
pub proof fn lemma_grid_heyting(x: Grid, a: Grid, b: Grid)
    ensures
        grid_le(grid_meet(x, a), b) <==> grid_le(x, grid_imp(a, b)),
{
    lemma_grid_meet_join_bounds(x, a, b);
    lemma_grid_of_components(
        if tbase_index(grid_n(a)) >= tbase_index(grid_n(b)) {
            TBase::T1
        } else {
            grid_n(b)
        },
        !grid_t(a) && grid_t(b),
        !grid_q(a) && grid_q(b),
    );
    lemma_tbase_index_round_trip(grid_n(x));
}

/// Co-Heyting adjunction: `coimp(x, a) <= b` exactly when
/// `x <= join(a, b)`.
pub proof fn lemma_grid_coheyting(x: Grid, a: Grid, b: Grid)
    ensures
        grid_le(grid_coimp(x, a), b) <==> grid_le(x, grid_join(a, b)),
{
    lemma_grid_meet_join_bounds(a, b, x);
    lemma_grid_of_components(
        if tbase_index(grid_n(x)) >= tbase_index(grid_n(a)) {
            TBase::T256
        } else {
            grid_n(x)
        },
        grid_t(x) || !grid_t(a),
        grid_q(x) || !grid_q(a),
    );
    lemma_tbase_index_round_trip(grid_n(b));
}

/// The pseudo-complement meets its argument in the bottom grid.
pub proof fn lemma_grid_neg_meet(a: Grid)
    ensures
        grid_meet(a, grid_neg(a)) == Grid::T512P,
        grid_neg(Grid::T512P) == Grid::T1,
        grid_neg(Grid::T1) == Grid::T512P,
{
    lemma_grid_heyting(a, a, Grid::T512P);
    lemma_grid_meet_join_bounds(a, grid_neg(a), a);
    lemma_grid_le_partial_order(grid_meet(a, grid_neg(a)), Grid::T512P, a);
    lemma_grid_bounds(grid_meet(a, grid_neg(a)));
    lemma_grid_le_partial_order(a, grid_neg(a), grid_meet(a, grid_neg(a)));
    lemma_grid_le_partial_order(
        grid_meet(a, grid_neg(a)),
        grid_neg(a),
        Grid::T512P,
    );
    lemma_grid_le_partial_order(Grid::T512P, grid_meet(a, grid_neg(a)), a);
}

} // verus!
