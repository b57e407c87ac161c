//! Sample <-> tick conversion at a runtime sample rate, tempo and
//! tick resolution. Integer-only: products are formed in `u128`.

use vstd::prelude::*;
use crate::fxp::Tempo;
use crate::time::Tick;

verus! {

/// `tick * sr * 60 * 10^6 / (bpm_micro * ppqn)` rounded to nearest
/// (halves up), saturated to `u64::MAX`: the sample a tick lands on.
pub open spec fn stc_inner(sr: nat, bpm: nat, ppqn: nat, tick: nat) -> nat {
    let d = bpm * ppqn;
    let q = (tick * sr * 60_000_000 + d / 2) / d;
    if q > u64::MAX {
        u64::MAX as nat
    } else {
        q
    }
}

/// `sample * bpm_micro * ppqn / (sr * 60 * 10^6)` rounded down,
/// saturated: the latest tick at or before a sample.
pub open spec fn stc_floor(sr: nat, bpm: nat, ppqn: nat, sample: nat) -> nat {
    let q = (sample * bpm * ppqn) / (sr * 60_000_000);
    if q > u64::MAX {
        u64::MAX as nat
    } else {
        q
    }
}

/// The same quotient rounded up: the earliest tick at or after a
/// sample.
pub open spec fn stc_ceil(sr: nat, bpm: nat, ppqn: nat, sample: nat) -> nat {
    let n = sample * bpm * ppqn;
    let d = sr * 60_000_000;
    let q = if n % d == 0 {
        n / d
    } else {
        n / d + 1
    };
    if q > u64::MAX {
        u64::MAX as nat
    } else {
        q
    }
}

/// `sample * bpm * ppqn` and its first partial product fit in `u128`.
proof fn lemma_product_fits(sample: u64, bpm: u32, ppqn: u32)
    ensures
        (sample as int) * (bpm as int) < 0x1_0000_0000_0000_0000_0000_0000,
        (sample as int) * (bpm as int) * (ppqn as int)
            < 0x1_0000_0000_0000_0000_0000_0000_0000_0000,
{
    assert((sample as int) * (bpm as int) < 0x1_0000_0000_0000_0000_0000_0000) by (nonlinear_arith)
        requires
            sample < 0x1_0000_0000_0000_0000,
            bpm < 0x1_0000_0000,
    ;
    assert((sample as int) * (bpm as int) * (ppqn as int)
        < 0x1_0000_0000_0000_0000_0000_0000_0000_0000) by (nonlinear_arith)
        requires
            (sample as int) * (bpm as int) < 0x1_0000_0000_0000_0000_0000_0000,
            ppqn < 0x1_0000_0000,
    ;
}

/// Sample <-> tick bridge parameterised by sample rate, tempo (micro-BPM)
/// and ticks per quarter note. `inner` maps a tick to its sample,
/// `floor` and `ceil` round a sample down and up to a tick.
#[derive(Copy, Clone, Debug)]
pub struct SampleTickConn {
    sr: u32,
    bpm: Tempo,
    ppqn: u32,
}

impl SampleTickConn {
    #[verifier::type_invariant]
    spec fn positive(&self) -> bool {
        self.sr > 0 && self.bpm.0 > 0 && self.ppqn > 0
    }

    /// The sample rate.
    pub closed spec fn sr_of(&self) -> nat {
        self.sr as nat
    }

    /// The tempo in micro-BPM.
    pub closed spec fn bpm_of(&self) -> nat {
        self.bpm.0 as nat
    }

    /// Ticks per quarter note.
    pub closed spec fn ppqn_of(&self) -> nat {
        self.ppqn as nat
    }

    /// Build a conversion. All three parameters must be positive.
    pub fn new(sr: u32, bpm: Tempo, ppqn: u32) -> (c: Self)
        requires
            sr > 0,
            ppqn > 0,
            bpm.0 > 0,
        ensures
            c.sr_of() == sr,
            c.bpm_of() == bpm.0,
            c.ppqn_of() == ppqn,
    {
        SampleTickConn { sr, bpm, ppqn }
    }

    /// The sample rate.
    pub fn sr(&self) -> (r: u32)
        ensures
            r == self.sr_of(),
            r > 0,
    {
        proof {
            use_type_invariant(self);
        }
        self.sr
    }

    /// The tempo.
    pub fn bpm(&self) -> (r: Tempo)
        ensures
            r.0 == self.bpm_of(),
            r.0 > 0,
    {
        proof {
            use_type_invariant(self);
        }
        self.bpm
    }

    /// Ticks per quarter note.
    pub fn ppqn(&self) -> (r: u32)
        ensures
            r == self.ppqn_of(),
            r > 0,
    {
        proof {
            use_type_invariant(self);
        }
        self.ppqn
    }

    /// Tick -> sample, rounded to nearest and saturated to `u64::MAX`.
    pub fn inner(&self, tick: Tick) -> (s: u64)
        ensures
            s == stc_inner(self.sr_of(), self.bpm_of(), self.ppqn_of(), tick.0 as nat),
    {
        proof {
            use_type_invariant(self);
        }
        proof {
            assert((tick.0 as int) * (self.sr as int) * 60_000_000 < 0x1_0000_0000_0000_0000
                * 0x1_0000_0000 * 0x400_0000) by (nonlinear_arith)
                requires
                    tick.0 < 0x1_0000_0000_0000_0000,
                    self.sr < 0x1_0000_0000,
            ;
            assert((self.bpm.0 as int) * (self.ppqn as int) < 0x1_0000_0000_0000_0000)
                by (nonlinear_arith)
                requires
                    self.bpm.0 < 0x1_0000_0000,
                    self.ppqn < 0x1_0000_0000,
            ;
            assert((self.bpm.0 as int) * (self.ppqn as int) > 0) by (nonlinear_arith)
                requires
                    self.bpm.0 > 0,
                    self.ppqn > 0,
            ;
        }
        let num: u128 = (tick.0 as u128) * (self.sr as u128) * 60_000_000;
        let denom: u128 = (self.bpm.0 as u128) * (self.ppqn as u128);
        let q = (num + denom / 2) / denom;
        if q > u64::MAX as u128 {
            u64::MAX
        } else {
            q as u64
        }
    }

    /// Sample -> tick, rounding down (latest tick at or before `sample`).
    pub fn floor(&self, sample: u64) -> (t: Tick)
        ensures
            t.0 == stc_floor(self.sr_of(), self.bpm_of(), self.ppqn_of(), sample as nat),
    {
        proof {
            use_type_invariant(self);
            lemma_product_fits(sample, self.bpm.0, self.ppqn);
            assert((self.sr as int) * 60_000_000 > 0) by (nonlinear_arith)
                requires
                    self.sr > 0,
            ;
        }
        let num: u128 = (sample as u128) * (self.bpm.0 as u128) * (self.ppqn as u128);
        let denom: u128 = (self.sr as u128) * 60_000_000;
        let q = num / denom;
        if q > u64::MAX as u128 {
            Tick(u64::MAX)
        } else {
            Tick(q as u64)
        }
    }

    /// Sample -> tick, rounding up (earliest tick at or after `sample`).
    pub fn ceil(&self, sample: u64) -> (t: Tick)
        ensures
            t.0 == stc_ceil(self.sr_of(), self.bpm_of(), self.ppqn_of(), sample as nat),
    {
        proof {
            use_type_invariant(self);
            lemma_product_fits(sample, self.bpm.0, self.ppqn);
            assert((self.sr as int) * 60_000_000 > 0) by (nonlinear_arith)
                requires
                    self.sr > 0,
            ;
        }
        let num: u128 = (sample as u128) * (self.bpm.0 as u128) * (self.ppqn as u128);
        let denom: u128 = (self.sr as u128) * 60_000_000;
        proof {
            assert(num / denom < 0x8000_0000_0000_0000_0000_0000_0000_0000) by (nonlinear_arith)
                requires
                    denom >= 2,
                    num < 0x1_0000_0000_0000_0000_0000_0000_0000_0000,
            ;
        }
        let q = if num % denom == 0 {
            num / denom
        } else {
            num / denom + 1
        };
        if q > u64::MAX as u128 {
            Tick(u64::MAX)
        } else {
            Tick(q as u64)
        }
    }
}

/// Rounding a sample down to a tick is monotone: a later sample never
/// lands on an earlier tick.
pub proof fn lemma_stc_floor_monotone(sr: nat, bpm: nat, ppqn: nat, s1: nat, s2: nat)
    requires
        sr > 0,
        s1 <= s2,
    ensures
        stc_floor(sr, bpm, ppqn, s1) <= stc_floor(sr, bpm, ppqn, s2),
{
    let d = sr * 60_000_000;
    assert(d > 0) by (nonlinear_arith)
        requires
            sr > 0,
            d == sr * 60_000_000,
    ;
    assert(s1 * bpm * ppqn <= s2 * bpm * ppqn) by (nonlinear_arith)
        requires
            s1 <= s2,
    ;
    assert((s1 * bpm * ppqn) / d <= (s2 * bpm * ppqn) / d) by (nonlinear_arith)
        requires
            s1 * bpm * ppqn <= s2 * bpm * ppqn,
            d > 0,
    ;
}

/// The tick at or before a sample never follows the tick at or after it.
pub proof fn lemma_stc_floor_le_ceil(sr: nat, bpm: nat, ppqn: nat, s: nat)
    requires
        sr > 0,
    ensures
        stc_floor(sr, bpm, ppqn, s) <= stc_ceil(sr, bpm, ppqn, s),
{
    let d = sr * 60_000_000;
    assert(d > 0) by (nonlinear_arith)
        requires
            sr > 0,
            d == sr * 60_000_000,
    ;
}

/// Round trip on exact configurations: when `tick * sr * 60 * 10^6` is a
/// multiple of `bpm_micro * ppqn` and the sample it maps to fits in
/// `u64`, rounding that sample down or up gives the tick back.
pub proof fn lemma_stc_round_trip(sr: nat, bpm: nat, ppqn: nat, tick: nat)
    requires
        sr > 0,
        bpm > 0,
        ppqn > 0,
        tick <= u64::MAX,
        (tick * sr * 60_000_000) % (bpm * ppqn) == 0,
        (tick * sr * 60_000_000) / (bpm * ppqn) <= u64::MAX,
    ensures
        stc_inner(sr, bpm, ppqn, tick) == (tick * sr * 60_000_000) / (bpm * ppqn),
        stc_floor(sr, bpm, ppqn, stc_inner(sr, bpm, ppqn, tick)) == tick,
        stc_ceil(sr, bpm, ppqn, stc_inner(sr, bpm, ppqn, tick)) == tick,
{
    let n = tick * sr * 60_000_000;
    let d = bpm * ppqn;
    let e = sr * 60_000_000;
    assert(d > 0 && e > 0) by (nonlinear_arith)
        requires
            sr > 0,
            bpm > 0,
            ppqn > 0,
            d == bpm * ppqn,
            e == sr * 60_000_000,
    ;
    let q = n / d;
    assert(n == q * d) by (nonlinear_arith)
        requires
            n % d == 0,
            d > 0,
            q == n / d,
    ;
    assert((n + d / 2) / d == q) by (nonlinear_arith)
        requires
            n == q * d,
            d > 0,
            0 <= d / 2 < d,
    ;
    assert(n == tick * e) by (nonlinear_arith)
        requires
            n == tick * sr * 60_000_000,
            e == sr * 60_000_000,
    ;
    assert(q * bpm * ppqn == q * d) by (nonlinear_arith)
        requires
            d == bpm * ppqn,
    ;
    assert((tick * e) / e == tick && (tick * e) % e == 0) by (nonlinear_arith)
        requires
            e > 0,
    ;
}

/// Round trip whenever a tick spans a whole or half number of samples
/// (at least one): rounding the sample a tick lands on down gives the
/// tick back, for every tick whose sample fits in `u64`.
pub proof fn lemma_stc_floor_inner_half(sr: nat, bpm: nat, ppqn: nat, tick: nat)
    requires
        sr > 0,
        bpm > 0,
        ppqn > 0,
        bpm * ppqn <= sr * 60_000_000,
        (2 * sr * 60_000_000) % (bpm * ppqn) == 0,
        (tick * sr * 60_000_000 + (bpm * ppqn) / 2) / (bpm * ppqn) <= u64::MAX,
    ensures
        stc_floor(sr, bpm, ppqn, stc_inner(sr, bpm, ppqn, tick)) == tick,
{
    let e = sr * 60_000_000;
    let d = bpm * ppqn;
    let n = tick * sr * 60_000_000;
    assert(d > 0) by (nonlinear_arith)
        requires
            bpm > 0,
            ppqn > 0,
            d == bpm * ppqn,
    ;
    assert(n == tick * e) by (nonlinear_arith)
        requires
            n == tick * sr * 60_000_000,
            e == sr * 60_000_000,
    ;
    assert(2 * sr * 60_000_000 == 2 * e);
    let j = (2 * e) / d;
    vstd::arithmetic::div_mod::lemma_fundamental_div_mod((2 * e) as int, d as int);
    assert(2 * e == j * d);
    vstd::arithmetic::div_mod::lemma_fundamental_div_mod(n as int, d as int);
    let q = n / d;
    let r = n % d;
    assert(2 * n == tick * (2 * e)) by (nonlinear_arith)
        requires
            n == tick * e,
    ;
    assert(tick * (2 * e) == tick * (j * d));
    assert(tick * (j * d) == (tick * j) * d) by (nonlinear_arith);
    assert((tick * j) * d - 2 * (d * q) == (tick * j - 2 * q) * d) by (nonlinear_arith);
    let k = tick * j - 2 * q;
    assert(2 * r == k * d);
    assert(k == 0 || k == 1) by (nonlinear_arith)
        requires
            2 * r == k * d,
            0 <= r < d,
            d > 0,
    ;
    let inner = stc_inner(sr, bpm, ppqn, tick);
    let v = inner * bpm * ppqn;
    assert(v == inner * d) by (nonlinear_arith)
        requires
            v == inner * bpm * ppqn,
            d == bpm * ppqn,
    ;
    if r == 0 {
        vstd::arithmetic::div_mod::lemma_fundamental_div_mod_converse((n + d / 2) as int, d as int, q as int, (d / 2) as int);
        assert(inner == q);
        assert(v == n) by (nonlinear_arith)
            requires
                v == inner * d,
                inner == q,
                n == d * q + r,
                r == 0,
        ;
    } else {
        assert(n + d / 2 == (q + 1) * d) by (nonlinear_arith)
            requires
                n == d * q + r,
                2 * r == d,
        ;
        vstd::arithmetic::div_mod::lemma_fundamental_div_mod_converse((n + d / 2) as int, d as int, (q + 1) as int, 0int);
        assert(inner == q + 1);
        assert(v == n + r) by (nonlinear_arith)
            requires
                v == inner * d,
                inner == q + 1,
                n == d * q + r,
                2 * r == d,
        ;
    }
    assert(d / 2 < e);
    assert(tick * e <= v < tick * e + e);
    vstd::arithmetic::div_mod::lemma_fundamental_div_mod_converse(v as int, e as int, tick as int, (v - tick * e) as int);
    assert(inner * d <= inner * e) by (nonlinear_arith)
        requires
            d <= e,
    ;
    assert(tick <= inner) by (nonlinear_arith)
        requires
            tick * e <= v,
            v == inner * d,
            inner * d <= inner * e,
            e > 0,
    ;
}

} // verus!
