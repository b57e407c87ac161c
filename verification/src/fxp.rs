//! Fixed-point value types: the decimal time ladder (`FD00`..`FD12`),
//! the Q0.32 phase accumulator, tempo in micro-BPM, Link quantum in
//! microbeats, and integer envelope ramps.

use vstd::prelude::*;

/// Microseconds, the unit of channel delay and offset.
pub use crate::fxp::FD06 as Micro;

/// Picoseconds, the unit of sample-rate conversion.
pub use crate::fxp::FD12 as Pico;

verus! {

/// Decimal precision marker: a value `T(i)` stands for `i / PREC`.
pub trait HasResolution {
    fn prec() -> (p: i64)
        ensures
            p > 0;
}

/// Whole seconds.
#[derive(Copy, Clone, Debug, PartialEq, Eq, PartialOrd, Ord, Hash, Default)]
pub struct FD00(pub i64);

/// Tenths of a second.
#[derive(Copy, Clone, Debug, PartialEq, Eq, PartialOrd, Ord, Hash, Default)]
pub struct FD01(pub i64);

/// Hundredths of a second.
#[derive(Copy, Clone, Debug, PartialEq, Eq, PartialOrd, Ord, Hash, Default)]
pub struct FD02(pub i64);

/// Milliseconds.
#[derive(Copy, Clone, Debug, PartialEq, Eq, PartialOrd, Ord, Hash, Default)]
pub struct FD03(pub i64);

/// Microseconds.
#[derive(Copy, Clone, Debug, PartialEq, Eq, PartialOrd, Ord, Hash, Default)]
pub struct FD06(pub i64);

/// Nanoseconds.
#[derive(Copy, Clone, Debug, PartialEq, Eq, PartialOrd, Ord, Hash, Default)]
pub struct FD09(pub i64);

/// Picoseconds.
#[derive(Copy, Clone, Debug, PartialEq, Eq, PartialOrd, Ord, Hash, Default)]
pub struct FD12(pub i64);

impl HasResolution for FD00 {
    fn prec() -> (p: i64) {
        1
    }
}

impl HasResolution for FD01 {
    fn prec() -> (p: i64)
        ensures
            p == 10,
    {
        10
    }
}

impl HasResolution for FD02 {
    fn prec() -> (p: i64)
        ensures
            p == 100,
    {
        100
    }
}

impl HasResolution for FD03 {
    fn prec() -> (p: i64)
        ensures
            p == 1_000,
    {
        1_000
    }
}

impl HasResolution for FD06 {
    fn prec() -> (p: i64)
        ensures
            p == 1_000_000,
    {
        1_000_000
    }
}

impl HasResolution for FD09 {
    fn prec() -> (p: i64)
        ensures
            p == 1_000_000_000,
    {
        1_000_000_000
    }
}

impl HasResolution for FD12 {
    fn prec() -> (p: i64)
        ensures
            p == 1_000_000_000_000,
    {
        1_000_000_000_000
    }
}


/// Floor division (rounds toward negative infinity).
pub open spec fn div_floor(x: int, p: int) -> int {
    x / p
}

/// Ceiling division (rounds toward positive infinity).
pub open spec fn div_ceil(x: int, p: int) -> int {
    if x % p == 0 {
        x / p
    } else {
        x / p + 1
    }
}

/// Euclidean quotient and remainder of `x` by `d > 1`.
pub fn euclid(x: i64, d: i64) -> (qr: (i64, i64))
    requires
        d > 1,
    ensures
        qr.0 == x as int / d as int,
        qr.1 == x as int % d as int,
        0 <= qr.1 < d,
        qr.0 < i64::MAX,
{
    proof {
        let qs = x as int / d as int;
        let rs = x as int % d as int;
        vstd::arithmetic::div_mod::lemma_fundamental_div_mod(x as int, d as int);
        assert(i64::MIN <= qs <= i64::MAX && qs < i64::MAX) by (nonlinear_arith)
            requires
                x as int == d * qs + rs,
                0 <= rs < d,
                d > 1,
                i64::MIN <= x <= i64::MAX,
        ;
    }
    let q = match x.checked_div_euclid(d) {
        Some(q) => q,
        None => 0,
    };
    let r = match x.checked_rem_euclid(d) {
        Some(r) => r,
        None => 0,
    };
    (q, r)
}

/// A connection between a fine decimal rung and a coarse one whose
/// resolution is `ratio` times coarser: `ceil` and `floor` round a fine
/// value up and down to the coarse rung, `inner` embeds a coarse value
/// exactly.
#[derive(Copy, Clone, Debug, PartialEq, Eq)]
pub struct FixConn {
    pub ratio: i64,
}

impl FixConn {
    /// Smallest coarse value whose embedding is at or above `x`.
    pub fn ceil(&self, x: i64) -> (c: i64)
        requires
            self.ratio > 1,
        ensures
            c == div_ceil(x as int, self.ratio as int),
    {
        let (q, r) = euclid(x, self.ratio);
        if r != 0 {
            q + 1
        } else {
            q
        }
    }

    /// Largest coarse value whose embedding is at or below `x`.
    pub fn floor(&self, x: i64) -> (c: i64)
        requires
            self.ratio > 1,
        ensures
            c == div_floor(x as int, self.ratio as int),
    {
        let (q, _r) = euclid(x, self.ratio);
        q
    }

    /// Exact embedding of a coarse value.
    pub fn inner(&self, c: i64) -> (x: i64)
        requires
            i64::MIN <= c * self.ratio <= i64::MAX,
        ensures
            x == c * self.ratio,
    {
        c * self.ratio
    }
}

/// The Galois laws of a decimal connection: `ceil` is the lower
/// adjoint and `floor` the upper adjoint of `inner`, the two roundings
/// differ by at most one coarse unit, and `inner` followed by either
/// rounding is the identity.
pub proof fn lemma_fix_conn_galois(ratio: int, x: int, c: int)
    requires
        ratio > 1,
    ensures
        div_ceil(x, ratio) <= c <==> x <= c * ratio,
        c <= div_floor(x, ratio) <==> c * ratio <= x,
        div_floor(x, ratio) <= div_ceil(x, ratio) <= div_floor(x, ratio) + 1,
        div_ceil(c * ratio, ratio) == c,
        div_floor(c * ratio, ratio) == c,
{
    let q = x / ratio;
    let r = x % ratio;
    assert(x == q * ratio + r && 0 <= r < ratio) by {
        vstd::arithmetic::div_mod::lemma_fundamental_div_mod(x, ratio);
    }
    assert(div_ceil(x, ratio) <= c <==> x <= c * ratio) by (nonlinear_arith)
        requires
            x == q * ratio + r,
            0 <= r < ratio,
            div_ceil(x, ratio) == (if r == 0 { q } else { q + 1 }),
    ;
    assert(c <= div_floor(x, ratio) <==> c * ratio <= x) by (nonlinear_arith)
        requires
            x == q * ratio + r,
            0 <= r < ratio,
            div_floor(x, ratio) == q,
    ;
    vstd::arithmetic::div_mod::lemma_div_multiples_vanish(c, ratio);
    vstd::arithmetic::div_mod::lemma_mod_multiples_basic(c, ratio);
    assert(c * ratio == ratio * c) by (nonlinear_arith);
}

/// The closure laws of a decimal connection: rounding up and scaling
/// back never goes below the value, rounding down and scaling back
/// never goes above it, rounding a rounded value again changes
/// nothing, and both roundings are monotone.
pub proof fn lemma_fix_conn_closure(ratio: int, x: int, y: int)
    requires
        ratio > 1,
    ensures
        x <= div_ceil(x, ratio) * ratio,
        div_floor(x, ratio) * ratio <= x,
        div_ceil(div_ceil(x, ratio) * ratio, ratio) == div_ceil(x, ratio),
        div_floor(div_floor(x, ratio) * ratio, ratio) == div_floor(x, ratio),
        x <= y ==> div_ceil(x, ratio) <= div_ceil(y, ratio),
        x <= y ==> div_floor(x, ratio) <= div_floor(y, ratio),
{
    let cx = div_ceil(x, ratio);
    let fx = div_floor(x, ratio);
    lemma_fix_conn_galois(ratio, x, cx);
    lemma_fix_conn_galois(ratio, x, fx);
    lemma_fix_conn_galois(ratio, cx * ratio, cx);
    lemma_fix_conn_galois(ratio, fx * ratio, fx);
    lemma_fix_conn_galois(ratio, y, div_ceil(y, ratio));
    lemma_fix_conn_galois(ratio, y, fx);
    lemma_fix_conn_galois(ratio, x, div_ceil(y, ratio));
}

impl FixConn {
    /// The connection between picoseconds (fine) and microseconds
    /// (coarse).
    pub fn fd12_fd06() -> (c: FixConn)
        ensures
            c.ratio == 1_000_000,
    {
        FixConn { ratio: 1_000_000 }
    }

    /// The connection between milliseconds (fine) and seconds (coarse).
    pub fn fd03_fd00() -> (c: FixConn)
        ensures
            c.ratio == 1_000,
    {
        FixConn { ratio: 1_000 }
    }
}

/// A phase in `[0, 1)` cycles as unsigned Q0.32: the whole `u32`
/// range is one cycle, so wrapping addition is reduction modulo one
/// cycle.
#[derive(Copy, Clone, Debug, PartialEq, Eq, Default)]
pub struct Phase(pub u32);

/// `(a + b) mod 2^32`.
pub open spec fn phase_add(a: u32, b: u32) -> u32 {
    ((a as int + b as int) % 0x1_0000_0000) as u32
}

/// `(a - b) mod 2^32`.
pub open spec fn phase_sub(a: u32, b: u32) -> u32 {
    ((a as int - b as int) % 0x1_0000_0000) as u32
}

impl Phase {
    /// Modular addition of phases.
    pub fn wrapping_add(self, rhs: Self) -> (r: Self)
        ensures
            r.0 == phase_add(self.0, rhs.0),
    {
        Phase(self.0.wrapping_add(rhs.0))
    }

    /// Modular subtraction of phases.
    pub fn wrapping_sub(self, rhs: Self) -> (r: Self)
        ensures
            r.0 == phase_sub(self.0, rhs.0),
    {
        Phase(self.0.wrapping_sub(rhs.0))
    }
}

proof fn lemma_mod_near(x: int)
    requires
        -0x1_0000_0000 <= x < 0x2_0000_0000,
    ensures
        x % 0x1_0000_0000 == (if x < 0 {
            x + 0x1_0000_0000
        } else if x < 0x1_0000_0000 {
            x
        } else {
            x - 0x1_0000_0000
        }),
{
    let m: int = 0x1_0000_0000;
    let r = if x < 0 {
        x + m
    } else if x < m {
        x
    } else {
        x - m
    };
    let q: int = if x < 0 {
        -1
    } else if x < m {
        0
    } else {
        1
    };
    assert(x == q * m + r && 0 <= r < m);
    vstd::arithmetic::div_mod::lemma_fundamental_div_mod_converse(x, m, q, r);
}

/// Phases form a group under wrapping addition: zero is the identity,
/// addition commutes and associates, and subtraction undoes addition.
pub proof fn lemma_phase_group(a: u32, b: u32, c: u32)
    ensures
        phase_add(a, 0) == a,
        phase_add(a, b) == phase_add(b, a),
        phase_add(phase_add(a, b), c) == phase_add(a, phase_add(b, c)),
        phase_sub(phase_add(a, b), b) == a,
        phase_add(phase_sub(a, b), b) == a,
{
    lemma_mod_near(a as int);
    lemma_mod_near(a as int + b as int);
    lemma_mod_near(b as int + a as int);
    lemma_mod_near(b as int + c as int);
    let ab = phase_add(a, b);
    let bc = phase_add(b, c);
    lemma_mod_near(ab as int + c as int);
    lemma_mod_near(a as int + bc as int);
    lemma_mod_near(ab as int - b as int);
    lemma_mod_near(a as int - b as int);
    let amb = phase_sub(a, b);
    lemma_mod_near(amb as int + b as int);
}

/// Beats per minute times 10^6.
#[derive(Copy, Clone, Debug, PartialEq, Eq, PartialOrd, Ord, Hash, Default)]
pub struct Tempo(pub u32);

impl Tempo {
    /// Tempo for an integer BPM (`n <= 4294`, so that `n * 10^6` fits).
    pub fn from_bpm_integer(n: u32) -> (t: Tempo)
        requires
            n <= 4294,
        ensures
            t.0 == n * 1_000_000,
    {
        Tempo(n * 1_000_000)
    }

    /// `|self - other|` in micro-BPM.
    pub fn abs_diff(self, other: Tempo) -> (d: u32)
        ensures
            d == (if self.0 >= other.0 {
                self.0 - other.0
            } else {
                other.0 - self.0
            }),
    {
        if self.0 >= other.0 {
            self.0 - other.0
        } else {
            other.0 - self.0
        }
    }
}

/// Link quantum in microbeats.
#[derive(Copy, Clone, Debug, Eq, PartialEq, PartialOrd, Ord, Hash, Default)]
pub struct Quantum(pub Micro);

impl Quantum {
    /// `n` bars of four beats... expressed as `n` beats: `n * 10^6`
    /// microbeats.
    pub fn from_bars(n: u32) -> (q: Quantum)
        ensures
            q.0.0 == n * 1_000_000,
    {
        Quantum(FD06((n as i64) * 1_000_000))
    }
}

/// Linear ramp `t / n` scaled to `0..=255` with round-to-nearest;
/// `255` from `t >= n` on, and for the degenerate `n == 0`.
pub open spec fn linear_u8_spec(t: nat, n: nat) -> nat {
    if n == 0 || t >= n {
        255
    } else {
        (t * 255 + n / 2) / n
    }
}

/// Linear ramp `t / n` rendered as a byte.
pub fn linear_u8(t: u32, n: u32) -> (r: u8)
    ensures
        r as nat == linear_u8_spec(t as nat, n as nat),
{
    if n == 0 {
        return 255;
    }
    if t >= n {
        return 255;
    }
    let num: u64 = (t as u64) * 255 + (n as u64) / 2;
    proof {
        let x = (t as int) * 255 + (n as int) / 2;
        assert(0 <= x < 256 * (n as int)) by (nonlinear_arith)
            requires
                x == (t as int) * 255 + (n as int) / 2,
                t < n,
        ;
        assert(x / (n as int) < 256) by (nonlinear_arith)
            requires
                0 <= x < 256 * (n as int),
                n > 0,
        ;
    }
    (num / (n as u64)) as u8
}

/// The Hermite smoothstep `3x^2 - 2x^3` at `x = t / n`, with `x`
/// quantised to Q0.24 and the cubic term rounded to Q0.48, scaled to
/// `0..=255` with round-to-nearest; `0` at `t == 0` and `255` from
/// `t >= n` on and for `n == 0`.
pub open spec fn smoothstep_u8_spec(t: nat, n: nat) -> nat {
    if n == 0 || t >= n {
        255
    } else if t == 0 {
        0
    } else {
        let x = t * 0x100_0000 / n;
        let y = 3 * (x * x) - (2 * (x * x * x) + 0x80_0000) / 0x100_0000;
        let scaled = (y * 255 + 0x8000_0000_0000) / 0x1_0000_0000_0000;
        (if scaled > 255 {
            255
        } else {
            scaled
        }) as nat
    }
}

/// The Hermite polynomial `3x^2 - 2x^3` of a Q0.24 fraction `x`, in
/// Q0.48 with the cubic term rounded.
pub open spec fn hermite_q48(x: int) -> int {
    3 * (x * x) - (2 * (x * x * x) + 0x80_0000) / 0x100_0000
}

/// One step up the fraction never lowers the polynomial.
proof fn lemma_hermite_step(x: int)
    requires
        0 <= x,
        x + 1 < 0x100_0000,
    ensures
        hermite_q48(x) <= hermite_q48(x + 1),
{
    let m: int = 0x100_0000;
    let a = 2 * (x * x * x) + 0x80_0000;
    let b = 2 * ((x + 1) * (x + 1) * (x + 1)) + 0x80_0000;
    let k = 6 * x + 1;
    assert(b <= a + k * m) by (nonlinear_arith)
        requires
            0 <= x,
            x + 2 <= m,
            m == 0x100_0000,
            a == 2 * (x * x * x) + 0x80_0000,
            b == 2 * ((x + 1) * (x + 1) * (x + 1)) + 0x80_0000,
            k == 6 * x + 1,
    ;
    vstd::arithmetic::div_mod::lemma_fundamental_div_mod(a, m);
    let q = a / m;
    vstd::arithmetic::div_mod::lemma_div_is_ordered(b, a + k * m, m);
    assert((a + k * m) / m == q + k) by {
        vstd::arithmetic::div_mod::lemma_fundamental_div_mod_converse(a + k * m, m, q + k, a % m);
        assert(a + k * m == (q + k) * m + a % m) by (nonlinear_arith)
            requires
                a == m * q + a % m,
        ;
    }
    assert(3 * ((x + 1) * (x + 1)) == 3 * (x * x) + 6 * x + 3) by (nonlinear_arith);
}

/// The polynomial is not negative on fractions below one.
proof fn lemma_hermite_nonneg(x: int)
    requires
        0 <= x < 0x100_0000,
    ensures
        hermite_q48(x) >= 0,
{
    let m: int = 0x100_0000;
    let a = 2 * (x * x * x) + 0x80_0000;
    if x == 0 {
        assert(a == 0x80_0000);
    } else {
        assert(a <= 3 * (x * x) * m) by (nonlinear_arith)
            requires
                1 <= x < m,
                m == 0x100_0000,
                a == 2 * (x * x * x) + 0x80_0000,
        ;
        vstd::arithmetic::div_mod::lemma_div_is_ordered(a, 3 * (x * x) * m, m);
        vstd::arithmetic::div_mod::lemma_div_by_multiple(3 * (x * x), m);
    }
}

/// The polynomial is monotone on fractions below one.
proof fn lemma_hermite_monotone(x1: int, x2: int)
    requires
        0 <= x1 <= x2 < 0x100_0000,
    ensures
        hermite_q48(x1) <= hermite_q48(x2),
    decreases x2 - x1,
{
    if x1 < x2 {
        lemma_hermite_monotone(x1, x2 - 1);
        lemma_hermite_step(x2 - 1);
    }
}

/// Below `n`, the fraction `t / n` in Q0.24 is below one.
proof fn lemma_smoothstep_fraction(t: nat, n: nat)
    requires
        t < n,
    ensures
        t * 0x100_0000 / n < 0x100_0000,
{
    let m: nat = 0x100_0000;
    assert(t * m <= n * m - 1) by (nonlinear_arith)
        requires
            t < n,
            m == 0x100_0000,
    ;
    vstd::arithmetic::div_mod::lemma_div_is_ordered((t * m) as int, (n * m - 1) as int, n as int);
    vstd::arithmetic::div_mod::lemma_fundamental_div_mod((n * m - 1) as int, n as int);
    assert((n * m - 1) / (n as int) < m) by (nonlinear_arith)
        requires
            n * m - 1 == n * ((n * m - 1) / (n as int)) + (n * m - 1) % (n as int),
            (n * m - 1) % (n as int) >= 0,
            n >= 1,
            m == 0x100_0000,
    ;
}

/// Smoothstep never goes down: for `1 <= n` and `t1 <= t2 <= n`, the
/// byte at `t1` is at most the byte at `t2`.
pub proof fn lemma_smoothstep_monotone(t1: nat, t2: nat, n: nat)
    requires
        1 <= n,
        t1 <= t2 <= n,
    ensures
        smoothstep_u8_spec(t1, n) <= smoothstep_u8_spec(t2, n),
{
    let m: nat = 0x100_0000;
    if t1 == 0 || t2 >= n {
        if t1 != 0 && t1 < n {
            let x = t1 * m / n;
            lemma_smoothstep_fraction(t1, n);
            lemma_hermite_nonneg(x as int);
            let y = hermite_q48(x as int);
            assert(y * 255 + 0x8000_0000_0000 >= 0);
            vstd::arithmetic::div_mod::lemma_div_pos_is_pos(y * 255 + 0x8000_0000_0000, 0x1_0000_0000_0000);
        }
    } else {
        let x1 = t1 * m / n;
        let x2 = t2 * m / n;
        assert(t1 * m <= t2 * m) by (nonlinear_arith)
            requires
                t1 <= t2,
        ;
        vstd::arithmetic::div_mod::lemma_div_is_ordered((t1 * m) as int, (t2 * m) as int, n as int);
        lemma_smoothstep_fraction(t2, n);
        lemma_hermite_nonneg(x1 as int);
        lemma_hermite_monotone(x1 as int, x2 as int);
        let y1 = hermite_q48(x1 as int);
        let y2 = hermite_q48(x2 as int);
        assert(y1 * 255 + 0x8000_0000_0000 <= y2 * 255 + 0x8000_0000_0000);
        vstd::arithmetic::div_mod::lemma_div_is_ordered(
            y1 * 255 + 0x8000_0000_0000,
            y2 * 255 + 0x8000_0000_0000,
            0x1_0000_0000_0000,
        );
        assert(x1 * x1 == (x1 as int) * (x1 as int));
    }
}

/// The polynomial at complementary fractions sums to one (`2^48` in
/// Q0.48), less the rounding and a step when the fractions fall one
/// short of one.
proof fn lemma_hermite_pair(x1: int, x2: int)
    requires
        0 <= x1,
        0 <= x2,
        x1 + x2 == 0x100_0000 || x1 + x2 == 0x100_0000 - 1,
    ensures
        2 * (hermite_q48(x1) + hermite_q48(x2)) >= 2 * 0x1_0000_0000_0000 - 3 * 0x100_0000 - 8,
        hermite_q48(x1) + hermite_q48(x2) <= 0x1_0000_0000_0000,
{
    let m: int = 0x100_0000;
    let a1 = 2 * (x1 * x1 * x1) + 0x80_0000;
    let a2 = 2 * (x2 * x2 * x2) + 0x80_0000;
    vstd::arithmetic::div_mod::lemma_fundamental_div_mod(a1, m);
    vstd::arithmetic::div_mod::lemma_fundamental_div_mod(a2, m);
    let c1 = a1 / m;
    let c2 = a2 / m;
    let r1 = a1 % m;
    let r2 = a2 % m;
    let q = 3 * (x1 * x1) + 3 * (x2 * x2);
    let p = x1 * x2;
    if x1 + x2 == m {
        assert(m * q - (a1 + a2) == m * m * m - m) by (nonlinear_arith)
            requires
                x1 + x2 == m,
                m == 0x100_0000,
                q == 3 * (x1 * x1) + 3 * (x2 * x2),
                a1 == 2 * (x1 * x1 * x1) + 0x80_0000,
                a2 == 2 * (x2 * x2 * x2) + 0x80_0000,
        ;
    } else {
        assert(m * q - (a1 + a2) == m * m * m - 4 * m + 2 - 6 * p) by (nonlinear_arith)
            requires
                x1 + x2 == m - 1,
                m == 0x100_0000,
                q == 3 * (x1 * x1) + 3 * (x2 * x2),
                p == x1 * x2,
                a1 == 2 * (x1 * x1 * x1) + 0x80_0000,
                a2 == 2 * (x2 * x2 * x2) + 0x80_0000,
        ;
        assert(4 * p <= m * m) by (nonlinear_arith)
            requires
                x1 + x2 == m - 1,
                p == x1 * x2,
                0 <= x1,
                0 <= x2,
        ;
        assert(p >= 0) by (nonlinear_arith)
            requires
                p == x1 * x2,
                0 <= x1,
                0 <= x2,
        ;
    }
    let h = q - c1 - c2;
    assert(m * h == m * q - (a1 + a2) + r1 + r2) by (nonlinear_arith)
        requires
            a1 == m * c1 + r1,
            a2 == m * c2 + r2,
            h == q - c1 - c2,
    ;
    assert(hermite_q48(x1) + hermite_q48(x2) == h);
    assert(2 * h >= 2 * m * m - 3 * m - 8 && h <= m * m) by (nonlinear_arith)
        requires
            m == 0x100_0000,
            m * h >= m * m * m - 4 * m + 2 - 3 * m * m / 2 || m * h >= m * m * m - m,
            m * h <= m * m * m + 2 * m - 2,
            m * h != m * m * m + m,
            0 <= r1 < m,
            0 <= r2 < m,
            m * h == m * q - (a1 + a2) + r1 + r2,
    ;
}

/// Smoothstep is close to symmetric: the bytes at `t` and at `n - t`
/// sum to 255 give or take one (for `0 < n` and `t <= n`).
pub proof fn lemma_smoothstep_symmetric(t: nat, n: nat)
    requires
        0 < n,
        t <= n,
    ensures
        254 <= smoothstep_u8_spec(t, n) + smoothstep_u8_spec((n - t) as nat, n) <= 256,
{
    let u = (n - t) as nat;
    if t == 0 || t == n {
        assert(u == n || u == 0);
    } else {
        let m: nat = 0x100_0000;
        let w: int = 0x1_0000_0000_0000;
        let x1 = t * m / n;
        let x2 = u * m / n;
        lemma_smoothstep_fraction(t, n);
        lemma_smoothstep_fraction(u, n);
        let tm = (t * m) as int;
        let um = (u * m) as int;
        let ni = n as int;
        vstd::arithmetic::div_mod::lemma_fundamental_div_mod(tm, ni);
        vstd::arithmetic::div_mod::lemma_fundamental_div_mod(um, ni);
        assert(x1 == tm / ni && x2 == um / ni);
        assert(x1 + x2 == m || x1 + x2 == m - 1) by (nonlinear_arith)
            requires
                tm == ni * x1 + tm % ni,
                um == ni * x2 + um % ni,
                0 <= tm % ni < ni,
                0 <= um % ni < ni,
                tm == t * m,
                um == u * m,
                t + u == ni,
                ni > 0,
                m == 0x100_0000,
        ;
        lemma_hermite_pair(x1 as int, x2 as int);
        lemma_hermite_nonneg(x1 as int);
        lemma_hermite_nonneg(x2 as int);
        let y1 = hermite_q48(x1 as int);
        let y2 = hermite_q48(x2 as int);
        assert(x1 * x1 == (x1 as int) * (x1 as int));
        assert(x2 * x2 == (x2 as int) * (x2 as int));
        let b1 = y1 * 255 + 0x8000_0000_0000;
        let b2 = y2 * 255 + 0x8000_0000_0000;
        vstd::arithmetic::div_mod::lemma_fundamental_div_mod(b1, w);
        vstd::arithmetic::div_mod::lemma_fundamental_div_mod(b2, w);
        let s1 = b1 / w;
        let s2 = b2 / w;
        assert(254 <= s1 + s2 <= 256) by (nonlinear_arith)
            requires
                w == 0x1_0000_0000_0000,
                b1 == w * s1 + b1 % w,
                b2 == w * s2 + b2 % w,
                0 <= b1 % w < w,
                0 <= b2 % w < w,
                b1 == y1 * 255 + 0x8000_0000_0000,
                b2 == y2 * 255 + 0x8000_0000_0000,
                2 * (y1 + y2) >= 2 * w - 3 * 0x100_0000 - 8,
                y1 + y2 <= w,
        ;
        vstd::arithmetic::div_mod::lemma_div_pos_is_pos(b1, w);
        vstd::arithmetic::div_mod::lemma_div_pos_is_pos(b2, w);
    }
}

/// Hermite smoothstep `3x^2 - 2x^3` rendered as a byte.
pub fn smoothstep_u8(t: u32, n: u32) -> (r: u8)
    ensures
        r as nat == smoothstep_u8_spec(t as nat, n as nat),
{
    if n == 0 {
        return 255;
    }
    if t >= n {
        return 255;
    }
    if t == 0 {
        return 0;
    }
    let x: u128 = ((t as u128) * 0x100_0000) / (n as u128);
    proof {
        assert(x < 0x100_0000) by (nonlinear_arith)
            requires
                x == (t as int) * 0x100_0000 / (n as int),
                t < n,
                n > 0,
        {
            vstd::arithmetic::div_mod::lemma_div_is_ordered(
                t * 0x100_0000,
                (n - 1) * 0x100_0000,
                n as int,
            );
            vstd::arithmetic::div_mod::lemma_div_by_multiple(0x100_0000 as int, n as int);
        }
        assert(x * x < 0x1_0000_0000_0000) by (nonlinear_arith)
            requires
                x < 0x100_0000,
        ;
        assert(x * x * x < 0x1_0000_0000_0000_0000_0000) by (nonlinear_arith)
            requires
                x < 0x100_0000,
        ;
    }
    let x2: u128 = x * x;
    let x3: u128 = x2 * x;
    let term_a = 3 * x2;
    let term_b = (2 * x3 + 0x80_0000) / 0x100_0000;
    proof {
        assert(term_b <= term_a) by (nonlinear_arith)
            requires
                x < 0x100_0000,
                x2 == x * x,
                x3 == x2 * x,
                term_a == 3 * x2,
                term_b == (2 * x3 + 0x80_0000) / 0x100_0000,
        {
            assert(2 * x3 + 0x80_0000 <= 3 * x2 * 0x100_0000 + 0xff_ffff) by (nonlinear_arith)
                requires
                    x < 0x100_0000,
                    x2 == x * x,
                    x3 == x2 * x,
            ;
            vstd::arithmetic::div_mod::lemma_div_is_ordered(
                2 * x3 + 0x80_0000,
                3 * x2 * 0x100_0000 + 0xff_ffff,
                0x100_0000,
            );
            vstd::arithmetic::div_mod::lemma_fundamental_div_mod_converse(
                3 * x2 * 0x100_0000 + 0xff_ffff,
                0x100_0000,
                3 * x2,
                0xff_ffff,
            );
        }
    }
    let y: u128 = term_a - term_b;
    let scaled = (y * 255 + 0x8000_0000_0000) / 0x1_0000_0000_0000;
    if scaled > 255 {
        255
    } else {
        scaled as u8
    }
}

/// Saturating narrow `i64 -> u32`: negatives to 0, large values to
/// `u32::MAX`.
pub fn sat_i64_u32(x: i64) -> (r: u32)
    ensures
        r == (if x < 0 {
            0
        } else if x > u32::MAX {
            u32::MAX as int
        } else {
            x as int
        }),
{
    if x < 0 {
        0
    } else if x > u32::MAX as i64 {
        u32::MAX
    } else {
        x as u32
    }
}

/// Saturating narrow `i128 -> u64`: negatives to 0, large values to
/// `u64::MAX`.
pub fn sat_i128_u64(x: i128) -> (r: u64)
    ensures
        r == (if x < 0 {
            0
        } else if x > u64::MAX {
            u64::MAX as int
        } else {
            x as int
        }),
{
    if x < 0 {
        0
    } else if x > u64::MAX as i128 {
        u64::MAX
    } else {
        x as u64
    }
}

/// The six supported audio sample rates.
pub open spec fn supported_rate(sr: u32) -> bool {
    sr == 44_100 || sr == 48_000 || sr == 88_200 || sr == 96_000 || sr == 176_400 || sr
        == 192_000
}

/// Round `b / d` to the nearest integer, ties away from zero.
pub open spec fn round_away(b: int, d: int) -> int {
    if b >= 0 {
        (b + d / 2) / d
    } else {
        -((-b + d / 2) / d)
    }
}

/// Picoseconds to whole samples at rate `sr`: the picosecond time is
/// rounded up to the rate's Q48.16 sample grid, then to the nearest
/// whole sample (ties away from zero).
pub open spec fn pico_samples(p: int, sr: int) -> int {
    round_away(div_ceil(p * sr * 0x1_0000, 1_000_000_000_000), 0x1_0000)
}

/// Ceiling division of `x` by a positive `d`.
fn ceil_div_i128(x: i128, d: i128) -> (r: i128)
    requires
        d > 1,
        -0x1_0000_0000_0000_0000_0000_0000_0000 <= x <= 0x1_0000_0000_0000_0000_0000_0000_0000,
    ensures
        r == div_ceil(x as int, d as int),
        -0x1_0000_0000_0000_0000_0000_0000_0000 <= r <= 0x1_0000_0000_0000_0000_0000_0000_0000,
{
    proof {
        let qs = x as int / d as int;
        let rs = x as int % d as int;
        vstd::arithmetic::div_mod::lemma_fundamental_div_mod(x as int, d as int);
        assert(-0x1_0000_0000_0000_0000_0000_0000_0000 <= qs < 0x1_0000_0000_0000_0000_0000_0000_0000)
            by (nonlinear_arith)
            requires
                x as int == d * qs + rs,
                0 <= rs < d,
                d > 1,
                -0x1_0000_0000_0000_0000_0000_0000_0000 <= x <= 0x1_0000_0000_0000_0000_0000_0000_0000,
        ;
    }
    let q = match x.checked_div_euclid(d) {
        Some(q) => q,
        None => 0,
    };
    let m = match x.checked_rem_euclid(d) {
        Some(m) => m,
        None => 0,
    };
    if m != 0 {
        q + 1
    } else {
        q
    }
}

/// Picoseconds to a whole sample count at a supported audio rate;
/// `None` for any other rate.
pub fn pico_to_samples(p: Pico, sr: u32) -> (r: Option<i64>)
    ensures
        r == (if supported_rate(sr) {
            Some(pico_samples(p.0 as int, sr as int) as i64)
        } else {
            None::<i64>
        }),
        supported_rate(sr) ==> i64::MIN <= pico_samples(p.0 as int, sr as int) <= i64::MAX,
{
    if !(sr == 44_100 || sr == 48_000 || sr == 88_200 || sr == 96_000 || sr == 176_400 || sr
        == 192_000) {
        return None;
    }
    proof {
        assert(-0x1_0000_0000_0000_0000_0000_0000_0000 <= (p.0 as int) * (sr as int) * 0x1_0000
            <= 0x1_0000_0000_0000_0000_0000_0000_0000) by (nonlinear_arith)
            requires
                i64::MIN <= p.0 <= i64::MAX,
                0 <= sr <= 192_000,
        ;
    }
    let num: i128 = (p.0 as i128) * (sr as i128) * 0x1_0000;
    let bits: i128 = ceil_div_i128(num, 1_000_000_000_000);
    proof {
        let b = div_ceil(num as int, 1_000_000_000_000);
        let qs = num as int / 1_000_000_000_000;
        vstd::arithmetic::div_mod::lemma_fundamental_div_mod(num as int, 1_000_000_000_000);
        assert(-0x100_0000_0000_0000_0000 <= qs <= 0x100_0000_0000_0000_0000) by (nonlinear_arith)
            requires
                num as int == 1_000_000_000_000 * qs + num as int % 1_000_000_000_000,
                0 <= num as int % 1_000_000_000_000 < 1_000_000_000_000,
                num as int == (p.0 as int) * (sr as int) * 0x1_0000,
                i64::MIN <= p.0 <= i64::MAX,
                0 <= sr <= 192_000,
        ;
        assert((bits + 0x8000) / 0x1_0000 <= i64::MAX) by (nonlinear_arith)
            requires
                bits <= 0x100_0000_0000_0000_0000 + 1,
        ;
        assert((-bits + 0x8000) / 0x1_0000 <= i64::MAX) by (nonlinear_arith)
            requires
                -bits <= 0x100_0000_0000_0000_0000,
        ;
    }
    let samples: i128 = if bits >= 0 {
        (bits + 0x8000) / 0x1_0000
    } else {
        -((-bits + 0x8000) / 0x1_0000)
    };
    Some(samples as i64)
}

} // verus!
