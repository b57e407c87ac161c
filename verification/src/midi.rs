//! MIDI data-byte domains: `U7` (`0..=127`: notes, velocities,
//! controller values) and `U4` (`0..=15`: zero-based channel numbers),
//! with their saturating connections to `u8`.

use vstd::prelude::*;
use crate::text::{nat_decimal, push_u64};

verus! {

/// A 7-bit MIDI data value (`0..=127` when built by [`U7::new`]).
#[derive(Copy, Clone, Debug, PartialEq, Eq, Structural, PartialOrd, Ord, Hash, Default)]
pub struct U7(pub u8);

/// A 4-bit MIDI channel number (`0..=15` when built by [`U4::new`]).
#[derive(Copy, Clone, Debug, PartialEq, Eq, Structural, PartialOrd, Ord, Hash, Default)]
pub struct U4(pub u8);

impl U7 {
    /// The largest 7-bit value.
    pub const MAX: u8 = 127;

    /// `Some(U7(x))` exactly when `x <= 127`.
    pub fn new(x: u8) -> (r: Option<U7>)
        ensures
            r == (if x <= 127 {
                Some(U7(x))
            } else {
                None::<U7>
            }),
    {
        if x <= Self::MAX {
            Some(U7(x))
        } else {
            None
        }
    }

    /// The decimal text of the value.
    pub fn to_string(&self) -> (s: String)
        ensures
            s@ == nat_decimal(self.0 as nat),
    {
        let mut s = String::new();
        push_u64(&mut s, self.0 as u64);
        assert(s@ =~= nat_decimal(self.0 as nat));
        s
    }
}

impl U4 {
    /// The largest 4-bit value.
    pub const MAX: u8 = 15;

    /// `Some(U4(x))` exactly when `x <= 15`.
    pub fn new(x: u8) -> (r: Option<U4>)
        ensures
            r == (if x <= 15 {
                Some(U4(x))
            } else {
                None::<U4>
            }),
    {
        if x <= Self::MAX {
            Some(U4(x))
        } else {
            None
        }
    }

    /// The decimal text of the value.
    pub fn to_string(&self) -> (s: String)
        ensures
            s@ == nat_decimal(self.0 as nat),
    {
        let mut s = String::new();
        push_u64(&mut s, self.0 as u64);
        assert(s@ =~= nat_decimal(self.0 as nat));
        s
    }
}

impl From<U7> for u8 {
    fn from(x: U7) -> (r: u8) {
        x.0
    }
}

impl vstd::std_specs::convert::FromSpecImpl<U7> for u8 {
    open spec fn obeys_from_spec() -> bool {
        true
    }

    open spec fn from_spec(x: U7) -> u8 {
        x.0
    }
}

impl From<U4> for u8 {
    fn from(x: U4) -> (r: u8) {
        x.0
    }
}

impl vstd::std_specs::convert::FromSpecImpl<U4> for u8 {
    open spec fn obeys_from_spec() -> bool {
        true
    }

    open spec fn from_spec(x: U4) -> u8 {
        x.0
    }
}

/// The saturating connection between `U7` and `u8`: `ceil` embeds a
/// 7-bit value exactly, `inner` clamps a byte to `127`.
#[derive(Copy, Clone, Debug)]
pub struct U007U008;

/// The saturating connection between `U4` and `u8`: `ceil` embeds a
/// 4-bit value exactly, `inner` clamps a byte to `15`.
#[derive(Copy, Clone, Debug)]
pub struct U004U008;

impl U007U008 {
    /// Exact embedding into `u8`.
    pub fn ceil(&self, x: U7) -> (r: u8)
        ensures
            r == x.0,
    {
        x.0
    }

    /// A byte clamped to `0..=127`.
    pub fn inner(&self, x: u8) -> (r: U7)
        ensures
            r.0 == (if x <= 127 {
                x
            } else {
                127
            }),
    {
        U7(if x <= U7::MAX { x } else { U7::MAX })
    }
}

impl U004U008 {
    /// Exact embedding into `u8`.
    pub fn ceil(&self, x: U4) -> (r: u8)
        ensures
            r == x.0,
    {
        x.0
    }

    /// A byte clamped to `0..=15`.
    pub fn inner(&self, x: u8) -> (r: U4)
        ensures
            r.0 == (if x <= 15 {
                x
            } else {
                15
            }),
    {
        U4(if x <= U4::MAX { x } else { U4::MAX })
    }
}

/// The clamp of a byte to `0..=max`.
pub open spec fn clamp_to(x: u8, max: u8) -> u8 {
    if x <= max {
        x
    } else {
        max
    }
}

/// The Galois law of the saturating connections: for an in-range value
/// `a` and any byte `b`, the embedding of `a` is at most `b` exactly
/// when `a` is at most the clamp of `b`; clamping an embedded value
/// gives it back, and embedding a clamped byte is `min(b, max)`.
pub proof fn lemma_saturating_galois(a: u8, b: u8, max: u8)
    requires
        a <= max,
    ensures
        (a <= b) <==> (a <= clamp_to(b, max)),
        clamp_to(a, max) == a,
        clamp_to(b, max) == (if b < max {
            b
        } else {
            max
        }),
{
}

} // verus!
