//! A preorder distinct from `PartialOrd`: grids are ordered by
//! divisibility of their steps, not by any order on their names.

use vstd::prelude::*;
use crate::midi::{U4, U7};
use crate::time::{grid_le, Grid};

verus! {

/// Reflexive, transitive preorder: `a.ple(&b)` reads "a is below b".
pub trait Ple {
    /// The relation as a mathematical predicate.
    spec fn ple_spec(&self, other: &Self) -> bool;

    /// Whether `self` is below `other`.
    fn ple(&self, other: &Self) -> (r: bool)
        ensures
            r == self.ple_spec(other),
    ;
}

impl Ple for Grid {
    open spec fn ple_spec(&self, other: &Self) -> bool {
        grid_le(*self, *other)
    }

    fn ple(&self, other: &Self) -> (r: bool) {
        Grid::ple(self, other)
    }
}

impl Ple for U7 {
    open spec fn ple_spec(&self, other: &Self) -> bool {
        self.0 <= other.0
    }

    fn ple(&self, other: &Self) -> (r: bool) {
        self.0 <= other.0
    }
}

impl Ple for U4 {
    open spec fn ple_spec(&self, other: &Self) -> bool {
        self.0 <= other.0
    }

    fn ple(&self, other: &Self) -> (r: bool) {
        self.0 <= other.0
    }
}

} // verus!
