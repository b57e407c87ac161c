//! Non-zero counters: a bar multiplier and an accent period are never
//! zero, so "every N-th" is always well defined.

use vstd::prelude::*;
use crate::text::{nat_decimal, push_u64};

verus! {

/// A `u16` that is never zero.
#[derive(Copy, Clone, Debug, PartialEq, Eq, Structural, PartialOrd, Ord, Hash)]
pub struct NonZeroU16(pub(crate) u16);

/// A `u32` that is never zero.
#[derive(Copy, Clone, Debug, PartialEq, Eq, Structural, PartialOrd, Ord, Hash)]
pub struct NonZeroU32(pub(crate) u32);

/// The non-zero value holding `n` (meaningful for `n != 0`).
pub closed spec fn nz16(n: u16) -> NonZeroU16 {
    NonZeroU16(n)
}

/// The non-zero value holding `n` (meaningful for `n != 0`).
pub closed spec fn nz32(n: u32) -> NonZeroU32 {
    NonZeroU32(n)
}

/// The value held by [`nz16`] and [`nz32`].
pub proof fn lemma_nz_value(a: u16, b: u32)
    ensures
        nz16(a).value() == a,
        nz32(b).value() == b,
{
}

impl NonZeroU16 {
    #[verifier::type_invariant]
    spec fn nonzero(self) -> bool {
        self.0 != 0
    }

    /// The value.
    pub closed spec fn value(self) -> u16 {
        self.0
    }

    /// `Some` of `n` exactly when `n` is not zero.
    pub fn new(n: u16) -> (r: Option<NonZeroU16>)
        ensures
            n == 0 ==> r is None,
            n != 0 ==> r == Some(nz16(n)) && r->0.value() == n,
    {
        if n == 0 {
            None
        } else {
            Some(NonZeroU16(n))
        }
    }

    /// The value, never zero.
    pub fn get(self) -> (n: u16)
        ensures
            n == self.value(),
            n != 0,
    {
        proof {
            use_type_invariant(&self);
        }
        self.0
    }

    /// The decimal text of the value.
    pub fn to_string(&self) -> (s: String)
        ensures
            s@ == nat_decimal(self.value() as nat),
    {
        let mut s = String::new();
        push_u64(&mut s, self.0 as u64);
        assert(s@ =~= nat_decimal(self.value() as nat));
        s
    }
}

impl NonZeroU32 {
    #[verifier::type_invariant]
    spec fn nonzero(self) -> bool {
        self.0 != 0
    }

    /// The value.
    pub closed spec fn value(self) -> u32 {
        self.0
    }

    /// `Some` of `n` exactly when `n` is not zero.
    pub fn new(n: u32) -> (r: Option<NonZeroU32>)
        ensures
            n == 0 ==> r is None,
            n != 0 ==> r == Some(nz32(n)) && r->0.value() == n,
    {
        if n == 0 {
            None
        } else {
            Some(NonZeroU32(n))
        }
    }

    /// The value, never zero.
    pub fn get(self) -> (n: u32)
        ensures
            n == self.value(),
            n != 0,
    {
        proof {
            use_type_invariant(&self);
        }
        self.0
    }

    /// The decimal text of the value.
    pub fn to_string(&self) -> (s: String)
        ensures
            s@ == nat_decimal(self.value() as nat),
    {
        let mut s = String::new();
        push_u64(&mut s, self.0 as u64);
        assert(s@ =~= nat_decimal(self.value() as nat));
        s
    }
}

/// Two non-zero values with the same number are the same value.
pub proof fn lemma_nonzero_u16_value_injective(a: NonZeroU16, b: NonZeroU16)
    requires
        a.value() == b.value(),
    ensures
        a == b,
{
}

/// Two non-zero values with the same number are the same value.
pub proof fn lemma_nonzero_u32_value_injective(a: NonZeroU32, b: NonZeroU32)
    requires
        a.value() == b.value(),
    ensures
        a == b,
{
}

} // verus!
