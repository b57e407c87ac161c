//! Decimal numbers with an optional exponent (`12.5`, `.5`, `3.`,
//! `1e3`, `2.5E-2`), read exactly: the value of the digits, scaled by a
//! power of ten.

use vstd::prelude::*;
use crate::channel::spec::values::dec_value;
use crate::channel::spec::tokenize::find_char;
use crate::text::{all_digits, digit_value, is_all_digits, is_digit, slice_chars};

verus! {

/// `10^k`.
pub open spec fn pow10(k: nat) -> nat
    decreases k,
{
    if k == 0 {
        1
    } else {
        10 * pow10((k - 1) as nat)
    }
}

/// `m * 10^s` rounded up to a whole number.
pub open spec fn scaled_ceil(m: nat, s: int) -> nat {
    if s >= 0 {
        m * pow10(s as nat)
    } else {
        (m + pow10((-s) as nat) - 1) as nat / pow10((-s) as nat)
    }
}

/// Powers of ten are positive.
pub proof fn lemma_pow10_pos(k: nat)
    ensures
        pow10(k) >= 1,
    decreases k,
{
    if k > 0 {
        lemma_pow10_pos((k - 1) as nat);
    }
}

/// Powers of ten multiply by adding exponents.
pub proof fn lemma_pow10(a: nat, b: nat)
    ensures
        pow10(a) >= 1,
        pow10(a + b) == pow10(a) * pow10(b),
    decreases b,
{
    lemma_pow10_pos(a);
    if b == 0 {
        assert(pow10(a) * 1 == pow10(a));
    } else {
        lemma_pow10(a, (b - 1) as nat);
        assert(pow10(a + b) == 10 * pow10((a + b - 1) as nat));
        assert(pow10(a + b) == pow10(a) * pow10(b)) by (nonlinear_arith)
            requires
                pow10(a + b) == 10 * pow10((a + b - 1) as nat),
                pow10((a + b - 1) as nat) == pow10(a) * pow10((b - 1) as nat),
                pow10(b) == 10 * pow10((b - 1) as nat),
        ;
    }
}

/// Powers of ten grow with the exponent.
pub proof fn lemma_pow10_mono(a: nat, b: nat)
    requires
        a <= b,
    ensures
        pow10(a) <= pow10(b),
{
    lemma_pow10(a, (b - a) as nat);
    lemma_pow10_pos((b - a) as nat);
    assert(pow10(a) * pow10((b - a) as nat) >= pow10(a)) by (nonlinear_arith)
        requires
            pow10((b - a) as nat) >= 1,
    ;
    assert(a + (b - a) as nat == b);
}

/// The value of joined digit runs.
pub proof fn lemma_dec_concat(a: Seq<char>, b: Seq<char>)
    ensures
        dec_value(a + b) == dec_value(a) * pow10(b.len()) + dec_value(b),
    decreases b.len(),
{
    if b.len() == 0 {
        assert(a + b =~= a);
        assert(dec_value(a) * 1 == dec_value(a));
    } else {
        let b1 = b.drop_last();
        lemma_dec_concat(a, b1);
        assert((a + b).drop_last() =~= a + b1);
        assert((a + b).last() == b.last());
        assert(pow10(b.len()) == 10 * pow10(b1.len()));
        assert(dec_value(a + b) == dec_value(a) * pow10(b.len()) + dec_value(b)) by (nonlinear_arith)
            requires
                dec_value(a + b) == dec_value(a + b1) * 10 + digit_value(b.last()),
                dec_value(a + b1) == dec_value(a) * pow10(b1.len()) + dec_value(b1),
                pow10(b.len()) == 10 * pow10(b1.len()),
                dec_value(b) == dec_value(b1) * 10 + digit_value(b.last()),
        ;
    }
}

/// A run of `k` digits is below `10^k`.
pub proof fn lemma_dec_upper(d: Seq<char>)
    requires
        all_digits(d),
    ensures
        dec_value(d) < pow10(d.len()),
    decreases d.len(),
{
    if d.len() > 0 {
        let d1 = d.drop_last();
        assert(all_digits(d1)) by {
            assert forall|i: int| 0 <= i < d1.len() implies is_digit(#[trigger] d1[i]) by {
                assert(d1[i] == d[i]);
            }
        }
        lemma_dec_upper(d1);
        assert(is_digit(d[d.len() - 1]));
        assert(dec_value(d) < pow10(d.len())) by (nonlinear_arith)
            requires
                dec_value(d) == dec_value(d1) * 10 + digit_value(d.last()),
                dec_value(d1) + 1 <= pow10(d1.len()),
                digit_value(d.last()) <= 9,
                pow10(d.len()) == 10 * pow10(d1.len()),
        ;
    }
}

/// Digits all zero are worth zero; a run with a non-zero digit is worth
/// more.
pub proof fn lemma_dec_zero(d: Seq<char>)
    requires
        all_digits(d),
    ensures
        (dec_value(d) == 0) <==> (forall|i: int| 0 <= i < d.len() ==> d[i] == '0'),
    decreases d.len(),
{
    if d.len() > 0 {
        let d1 = d.drop_last();
        assert(all_digits(d1)) by {
            assert forall|i: int| 0 <= i < d1.len() implies is_digit(#[trigger] d1[i]) by {
                assert(d1[i] == d[i]);
            }
        }
        lemma_dec_zero(d1);
        assert(is_digit(d[d.len() - 1]));
        if forall|i: int| 0 <= i < d.len() ==> d[i] == '0' {
            assert forall|i: int| 0 <= i < d1.len() implies d1[i] == '0' by {
                assert(d1[i] == d[i]);
            }
            assert(d[d.len() - 1] == '0');
        } else {
            let j = choose|j: int| 0 <= j < d.len() && d[j] != '0';
            if j < d.len() - 1 {
                assert(d1[j] == d[j]);
            }
        }
    }
}

/// A run whose first digit is not zero is at least `10^(k-1)`.
pub proof fn lemma_dec_lower(d: Seq<char>)
    requires
        all_digits(d),
        d.len() >= 1,
        d[0] != '0',
    ensures
        dec_value(d) >= pow10((d.len() - 1) as nat),
{
    let h = d.subrange(0, 1);
    let t = d.subrange(1, d.len() as int);
    assert(d =~= h + t);
    lemma_dec_concat(h, t);
    assert(h.drop_last() =~= Seq::<char>::empty());
    assert(h.last() == d[0]);
    assert(dec_value(Seq::<char>::empty()) == 0);
    assert(is_digit(d[0]));
    assert(dec_value(h) == digit_value(d[0]));
    assert(dec_value(h) >= 1);
    assert(dec_value(d) >= pow10(t.len())) by (nonlinear_arith)
        requires
            dec_value(d) == dec_value(h) * pow10(t.len()) + dec_value(t),
            dec_value(h) >= 1,
    ;
}

/// Rounding `head` digits then `tail` digits up to a whole number of
/// `10^|tail|`: the head's value, plus one when the tail is not all
/// zero.
pub proof fn lemma_ceil_split(head: Seq<char>, tail: Seq<char>)
    requires
        all_digits(tail),
    ensures
        scaled_ceil(dec_value(head + tail), -(tail.len() as int)) == dec_value(head) + if exists|i: int|
            0 <= i < tail.len() && tail[i] != '0' {
            1nat
        } else {
            0nat
        },
{
    let k = tail.len();
    let q = pow10(k);
    lemma_dec_concat(head, tail);
    lemma_dec_upper(tail);
    lemma_dec_zero(tail);
    lemma_pow10(0, k);
    let h = dec_value(head);
    let t = dec_value(tail);
    if k == 0 {
        assert(scaled_ceil(dec_value(head + tail), 0) == dec_value(head + tail) * pow10(0));
        assert(h * 1 == h);
    } else {
        let x = h * q + t;
        if t == 0 {
            vstd::arithmetic::div_mod::lemma_fundamental_div_mod_converse((x + q - 1) as int, q as int, h as int, (q - 1) as int);
        } else {
            assert(x + q - 1 == (h + 1) * q + (t - 1)) by (nonlinear_arith)
                requires
                    x == h * q + t,
            ;
            vstd::arithmetic::div_mod::lemma_fundamental_div_mod_converse((x + q - 1) as int, q as int, (h + 1) as int, (t - 1) as int);
        }
    }
}

/// The first `e` or `E` at or after `pos`, or the length.
pub open spec fn find_exp(s: Seq<char>, pos: nat) -> nat
    decreases s.len() - pos,
{
    if pos >= s.len() {
        s.len()
    } else if s[pos as int] == 'e' || s[pos as int] == 'E' {
        pos
    } else {
        find_exp(s, pos + 1)
    }
}

/// `find_exp` stops at the first marker.
pub proof fn lemma_find_exp_at(s: Seq<char>, pos: nat, k: nat)
    requires
        pos <= k <= s.len(),
        forall|i: int| pos <= i < k ==> s[i] != 'e' && s[i] != 'E',
        k == s.len() || s[k as int] == 'e' || s[k as int] == 'E',
    ensures
        find_exp(s, pos) == k,
    decreases k - pos,
{
    if pos < k {
        lemma_find_exp_at(s, pos + 1, k);
    }
}

/// An exponent: an optional sign, then at least one digit.
pub open spec fn exp_value(x: Seq<char>) -> Option<int> {
    let signed = x.len() > 0 && (x[0] == '+' || x[0] == '-');
    let digits = if signed {
        x.subrange(1, x.len() as int)
    } else {
        x
    };
    if digits.len() == 0 || !all_digits(digits) {
        None
    } else if x[0] == '-' {
        Some(-(dec_value(digits) as int))
    } else {
        Some(dec_value(digits) as int)
    }
}

/// The part before the exponent marker.
pub open spec fn mantissa(body: Seq<char>) -> Seq<char> {
    body.subrange(0, find_exp(body, 0) as int)
}

/// The mantissa's digits before the point.
pub open spec fn int_digits(body: Seq<char>) -> Seq<char> {
    let mant = mantissa(body);
    mant.subrange(0, find_char(mant, 0, '.') as int)
}

/// The mantissa's digits after the point (none without a point).
pub open spec fn frac_digits(body: Seq<char>) -> Seq<char> {
    let mant = mantissa(body);
    let dot = find_char(mant, 0, '.');
    if dot < mant.len() {
        mant.subrange(dot + 1int, mant.len() as int)
    } else {
        Seq::empty()
    }
}

/// The exponent: zero without a marker, `None` when what follows the
/// marker is no exponent.
pub open spec fn exponent(body: Seq<char>) -> Option<int> {
    let epos = find_exp(body, 0);
    if epos < body.len() {
        exp_value(body.subrange(epos + 1int, body.len() as int))
    } else {
        Some(0int)
    }
}

/// Whether `body` is a number `digits[.digits][(e|E)[sign]digits]` with
/// at least one mantissa digit.
pub open spec fn is_decimal(body: Seq<char>) -> bool {
    &&& all_digits(int_digits(body))
    &&& all_digits(frac_digits(body))
    &&& int_digits(body).len() + frac_digits(body).len() > 0
    &&& exponent(body) is Some
}

/// The number `body` scaled by `10^shift` and rounded up; `None` for
/// text that is no number of [`is_decimal`]'s grammar.
pub open spec fn decimal_scaled(body: Seq<char>, shift: int) -> Option<nat> {
    if !is_decimal(body) {
        None
    } else {
        Some(
            scaled_ceil(
                dec_value(int_digits(body) + frac_digits(body)),
                exponent(body)->0 - frac_digits(body).len() + shift,
            ),
        )
    }
}

/// An exponent held within [`exp_cap`].
pub open spec fn capped(e: int) -> int {
    if e > exp_cap() {
        exp_cap()
    } else if e < -exp_cap() {
        -exp_cap()
    } else {
        e
    }
}

/// How an exponent is capped while it is read.
pub open spec fn exp_cap() -> int {
    1_000_000_000_000_000_000_000_000_000_000
}

/// Ten to the nineteenth is past `i64::MAX`.
proof fn lemma_pow10_19()
    ensures
        pow10(19) == 10_000_000_000_000_000_000,
{
    reveal_with_fuel(pow10, 20);
}

/// A number whose leading digit sits at `10^19` or higher is past
/// `i64::MAX`.
proof fn lemma_scaled_big(t: Seq<char>, s: int)
    requires
        all_digits(t),
        t.len() >= 1,
        t[0] != '0',
        t.len() - 1 + s >= 19,
    ensures
        scaled_ceil(dec_value(t), s) > i64::MAX,
{
    let l = t.len();
    lemma_dec_lower(t);
    lemma_pow10_19();
    let top = (l - 1 + s) as nat;
    lemma_pow10_mono(19, top);
    if s >= 0 {
        lemma_pow10((l - 1) as nat, s as nat);
        lemma_pow10_pos(s as nat);
        assert(dec_value(t) * pow10(s as nat) >= pow10((l - 1) as nat) * pow10(s as nat)) by (nonlinear_arith)
            requires
                dec_value(t) >= pow10((l - 1) as nat),
        ;
        assert((l - 1) as nat + s as nat == top);
    } else {
        let k = (-s) as nat;
        let p = pow10(k);
        lemma_pow10(top, k);
        assert(top + k == (l - 1) as nat);
        lemma_pow10_pos(k);
        assert(dec_value(t) + p - 1 >= pow10(top) * p);
        vstd::arithmetic::div_mod::lemma_div_is_ordered((pow10(top) * p) as int, (dec_value(t) + p - 1) as int, p as int);
        vstd::arithmetic::div_mod::lemma_div_by_multiple(pow10(top) as int, p as int);
    }
}

/// A number below one (but not zero) rounds up to one.
proof fn lemma_scaled_small(t: Seq<char>, s: int)
    requires
        all_digits(t),
        t.len() >= 1,
        t[0] != '0',
        t.len() + s <= 0,
    ensures
        scaled_ceil(dec_value(t), s) == 1,
{
    let k = (-s) as nat;
    let p = pow10(k);
    lemma_dec_lower(t);
    lemma_dec_upper(t);
    lemma_pow10_pos((t.len() - 1) as nat);
    lemma_pow10_mono(t.len(), k);
    let m = dec_value(t);
    vstd::arithmetic::div_mod::lemma_fundamental_div_mod_converse((m + p - 1) as int, p as int, 1, (m - 1) as int);
}

/// A run of zero digits followed by `t` is worth `t`.
proof fn lemma_leading_zeros(d: Seq<char>, z: nat)
    requires
        z <= d.len(),
        forall|i: int| 0 <= i < z ==> d[i] == '0',
        all_digits(d),
    ensures
        dec_value(d) == dec_value(d.subrange(z as int, d.len() as int)),
{
    let a = d.subrange(0, z as int);
    let b = d.subrange(z as int, d.len() as int);
    assert(d =~= a + b);
    lemma_dec_concat(a, b);
    assert(all_digits(a)) by {
        assert forall|i: int| 0 <= i < a.len() implies is_digit(#[trigger] a[i]) by {
            assert(a[i] == d[i]);
        }
    }
    lemma_dec_zero(a);
    assert forall|i: int| 0 <= i < a.len() implies a[i] == '0' by {
        assert(a[i] == d[i]);
    }
}

/// Zero scales to zero.
proof fn lemma_scaled_zero(s: int)
    ensures
        scaled_ceil(0, s) == 0,
{
    if s < 0 {
        let p = pow10((-s) as nat);
        lemma_pow10_pos((-s) as nat);
        vstd::arithmetic::div_mod::lemma_fundamental_div_mod_converse((p - 1) as int, p as int, 0, (p - 1) as int);
    } else {
        assert(0 * pow10(s as nat) == 0);
    }
}

/// What reading a decimal number as microseconds gives.
#[derive(Copy, Clone, Debug, PartialEq, Eq)]
pub enum DecimalRead {
    /// Not a number of this grammar.
    Invalid,
    /// A number past `i64::MAX`.
    TooLarge,
    /// The number, at most `i64::MAX`.
    Value(u64),
}

/// `10^k` for small `k`.
fn pow10_exec(k: u32) -> (r: u128)
    requires
        k <= 19,
    ensures
        r == pow10(k as nat),
{
    let mut r: u128 = 1;
    let mut i: u32 = 0;
    proof {
        lemma_pow10_19();
    }
    while i < k
        invariant
            i <= k <= 19,
            r == pow10(i as nat),
            r <= pow10(19),
        decreases k - i,
    {
        proof {
            lemma_pow10_19();
            lemma_pow10_mono((i + 1) as nat, 19);
        }
        r = r * 10;
        i += 1;
    }
    r
}

/// The value of the digits `d[lo..hi]`, at most nineteen of them.
fn digits_value(d: &Vec<char>, lo: usize, hi: usize) -> (r: u128)
    requires
        lo <= hi <= d@.len(),
        hi - lo <= 19,
        all_digits(d@),
    ensures
        r == dec_value(d@.subrange(lo as int, hi as int)),
{
    let mut r: u128 = 0;
    let mut i: usize = lo;
    proof {
        lemma_pow10_19();
    }
    while i < hi
        invariant
            lo <= i <= hi <= d@.len(),
            hi - lo <= 19,
            all_digits(d@),
            pow10(19) == 10_000_000_000_000_000_000,
            r == dec_value(d@.subrange(lo as int, i as int)),
        decreases hi - i,
    {
        let ghost p = d@.subrange(lo as int, i as int);
        proof {
            let q = d@.subrange(lo as int, i + 1);
            assert(q.drop_last() =~= p);
            assert(q.last() == d@[i as int]);
            assert(all_digits(p)) by {
                assert forall|j: int| 0 <= j < p.len() implies is_digit(#[trigger] p[j]) by {
                    assert(p[j] == d@[lo + j]);
                }
            }
            lemma_dec_upper(p);
            lemma_pow10_mono(p.len(), 18);
            assert(is_digit(d@[i as int]));
            reveal_with_fuel(pow10, 20);
        }
        let v = (d[i] as u32 - '0' as u32) as u128;
        r = r * 10 + v;
        i += 1;
    }
    r
}

/// Whether a digit of `d[lo..hi]` is not zero.
fn any_nonzero(d: &Vec<char>, lo: usize, hi: usize) -> (r: bool)
    requires
        lo <= hi <= d@.len(),
    ensures
        r == exists|i: int| 0 <= i < hi - lo && d@.subrange(lo as int, hi as int)[i] != '0',
{
    let mut i: usize = lo;
    while i < hi
        invariant
            lo <= i <= hi <= d@.len(),
            forall|j: int| lo <= j < i ==> d@[j] == '0',
        decreases hi - i,
    {
        if d[i] != '0' {
            assert(d@.subrange(lo as int, hi as int)[i - lo] != '0');
            return true;
        }
        i += 1;
    }
    assert forall|j: int| 0 <= j < hi - lo implies d@.subrange(lo as int, hi as int)[j] == '0' by {
        assert(d@.subrange(lo as int, hi as int)[j] == d@[lo + j]);
    }
    false
}

/// Read an exponent, capping its size.
fn read_exponent(x: &[char]) -> (r: Option<i128>)
    ensures
        r is None <==> exp_value(x@) is None,
        r matches Some(c) ==> c == capped(exp_value(x@)->0),
{
    let signed = x.len() > 0 && (x[0] == '+' || x[0] == '-');
    let start: usize = if signed {
        1
    } else {
        0
    };
    let ghost digits = if signed {
        x@.subrange(1, x@.len() as int)
    } else {
        x@
    };
    if start >= x.len() {
        return None;
    }
    let mut acc: u128 = 0;
    let mut i: usize = start;
    while i < x.len()
        invariant
            start <= i <= x@.len(),
            start == 0 || start == 1,
            signed == (x@.len() > 0 && (x@[0] == '+' || x@[0] == '-')),
            start == (if signed { 1usize } else { 0usize }),
            digits == (if signed { x@.subrange(1, x@.len() as int) } else { x@ }),
            digits == x@.subrange(start as int, x@.len() as int),
            forall|j: int| start <= j < i ==> is_digit(#[trigger] x@[j]),
            acc == if dec_value(x@.subrange(start as int, i as int)) > exp_cap() {
                exp_cap()
            } else {
                dec_value(x@.subrange(start as int, i as int)) as int
            },
        decreases x.len() - i,
    {
        if !(x[i] >= '0' && x[i] <= '9') {
            proof {
                assert(digits[i - start] == x@[i as int]);
                assert(!is_digit(digits[i - start]));
                assert(!all_digits(digits));
            }
            return None;
        }
        let v = (x[i] as u32 - '0' as u32) as u128;
        proof {
            let q = x@.subrange(start as int, i + 1);
            assert(q.drop_last() =~= x@.subrange(start as int, i as int));
            assert(q.last() == x@[i as int]);
        }
        let next = acc * 10 + v;
        acc = if next > 1_000_000_000_000_000_000_000_000_000_000 {
            1_000_000_000_000_000_000_000_000_000_000
        } else {
            next
        };
        i += 1;
    }
    assert(x@.subrange(start as int, i as int) =~= digits);
    assert(all_digits(digits)) by {
        assert forall|j: int| 0 <= j < digits.len() implies is_digit(#[trigger] digits[j]) by {
            assert(digits[j] == x@[start + j]);
        }
    }
    let a = acc as i128;
    if x[0] == '-' {
        Some(-a)
    } else {
        Some(a)
    }
}


/// The digits `d[z..]` (leading digit not zero) scaled by `10^s` and
/// rounded up, for shifts that leave between one and nineteen digits
/// before the point.
fn scale_digits(d: &Vec<char>, z: usize, s: i128) -> (r: DecimalRead)
    requires
        all_digits(d@),
        z < d@.len(),
        d@[z as int] != '0',
        d@.len() - z + s >= 1,
        d@.len() - z - 1 + s <= 18,
    ensures
        r matches DecimalRead::Value(x) ==> x == scaled_ceil(
            dec_value(d@.subrange(z as int, d@.len() as int)),
            s as int,
        ) && x <= i64::MAX,
        r == DecimalRead::TooLarge ==> scaled_ceil(
            dec_value(d@.subrange(z as int, d@.len() as int)),
            s as int,
        ) > i64::MAX,
        r != DecimalRead::Invalid,
{
    let ghost t = d@.subrange(z as int, d@.len() as int);
    let n: usize = d.len() - z;
    proof {
        assert(all_digits(t)) by {
            assert forall|j: int| 0 <= j < t.len() implies is_digit(#[trigger] t[j]) by {
                assert(t[j] == d@[z + j]);
            }
        }
        lemma_pow10_19();
    }
    let v: u128 = if s >= 0 {
        let k = s as u32;
        let m = digits_value(d, z, d.len());
        let p = pow10_exec(k);
        proof {
            assert(d@.subrange(z as int, d.len() as int) == t);
            lemma_dec_upper(t);
            lemma_pow10(n as nat, k as nat);
            lemma_pow10_pos(k as nat);
            lemma_pow10_mono((n + k) as nat, 19);
            assert(m * p < pow10(19)) by (nonlinear_arith)
                requires
                    m < pow10(n as nat),
                    pow10((n + k) as nat) == pow10(n as nat) * pow10(k as nat),
                    pow10((n + k) as nat) <= pow10(19),
                    p == pow10(k as nat),
                    p >= 1,
            ;
        }
        m * p
    } else {
        let keep: usize = (n as i128 + s) as usize;
        let head = digits_value(d, z, z + keep);
        let up = any_nonzero(d, z + keep, d.len());
        proof {
            let hd = d@.subrange(z as int, z + keep);
            let tl = d@.subrange(z + keep, d@.len() as int);
            assert(hd + tl =~= t);
            assert(all_digits(tl)) by {
                assert forall|j: int| 0 <= j < tl.len() implies is_digit(#[trigger] tl[j]) by {
                    assert(tl[j] == d@[z + keep + j]);
                }
            }
            assert(all_digits(hd)) by {
                assert forall|j: int| 0 <= j < hd.len() implies is_digit(#[trigger] hd[j]) by {
                    assert(hd[j] == d@[z + j]);
                }
            }
            lemma_ceil_split(hd, tl);
            assert(tl.len() == -s);
            lemma_dec_upper(hd);
            lemma_pow10_mono(keep as nat, 19);
        }
        head + if up { 1u128 } else { 0u128 }
    };
    if v > 0x7fff_ffff_ffff_ffff {
        DecimalRead::TooLarge
    } else {
        DecimalRead::Value(v as u64)
    }
}

/// Split a number into its mantissa digits (point removed), the count
/// of digits after the point and its exponent (capped); `None` for text
/// of another form.
fn decimal_parts(body: &[char]) -> (r: Option<(Vec<char>, usize, i128)>)
    ensures
        r is None <==> !is_decimal(body@),
        r matches Some(p) ==> {
            &&& p.0@ == int_digits(body@) + frac_digits(body@)
            &&& p.1 == frac_digits(body@).len()
            &&& p.2 == capped(exponent(body@)->0)
        },
{
    let mut epos: usize = 0;
    while epos < body.len() && body[epos] != 'e' && body[epos] != 'E'
        invariant
            0 <= epos <= body@.len(),
            find_exp(body@, 0) == find_exp(body@, epos as nat),
        decreases body.len() - epos,
    {
        epos += 1;
    }
    let mant = slice_chars(body, 0, epos);
    let mut dot: usize = 0;
    while dot < mant.len() && mant[dot] != '.'
        invariant
            0 <= dot <= mant@.len(),
            find_char(mant@, 0, '.') == find_char(mant@, dot as nat, '.'),
        decreases mant.len() - dot,
    {
        dot += 1;
    }
    let ip = slice_chars(mant.as_slice(), 0, dot);
    let fp = if dot < mant.len() {
        slice_chars(mant.as_slice(), dot + 1, mant.len())
    } else {
        Vec::new()
    };
    assert(dot >= mant@.len() ==> fp@ =~= Seq::<char>::empty());
    assert(ip@ == int_digits(body@));
    assert(fp@ == frac_digits(body@));
    if !is_all_digits(ip.as_slice()) || !is_all_digits(fp.as_slice()) || ip.len() + fp.len() == 0 {
        return None;
    }
    let mut e: i128 = 0;
    if epos < body.len() {
        let ex = slice_chars(body, epos + 1, body.len());
        match read_exponent(ex.as_slice()) {
            None => {
                return None;
            },
            Some(c) => {
                e = c;
            },
        }
    }
    let mut d = slice_chars(ip.as_slice(), 0, ip.len());
    let mut i: usize = 0;
    while i < fp.len()
        invariant
            0 <= i <= fp@.len(),
            d@ == ip@ + fp@.subrange(0, i as int),
        decreases fp.len() - i,
    {
        d.push(fp[i]);
        i += 1;
    }
    assert(fp@.subrange(0, fp@.len() as int) =~= fp@);
    Some((d, fp.len(), e))
}

/// The digits `d`, of which the last `fl` follow the point, times
/// `10^(e - fl + 3)`, rounded up; `e` is the exponent `et` capped.
fn scale_thousandths(d: &Vec<char>, fl: usize, e: i128, Ghost(et): Ghost<int>) -> (r: DecimalRead)
    requires
        all_digits(d@),
        fl <= d@.len(),
        e == capped(et),
    ensures
        r matches DecimalRead::Value(x) ==> x == scaled_ceil(dec_value(d@), et - fl + 3) && x
            <= i64::MAX,
        r == DecimalRead::TooLarge ==> scaled_ceil(dec_value(d@), et - fl + 3) > i64::MAX,
        r != DecimalRead::Invalid,
{
    let mut z: usize = 0;
    while z < d.len() && d[z] == '0'
        invariant
            0 <= z <= d@.len(),
            forall|j: int| 0 <= j < z ==> d@[j] == '0',
        decreases d.len() - z,
    {
        z += 1;
    }
    proof {
        lemma_leading_zeros(d@, z as nat);
    }
    let ghost t = d@.subrange(z as int, d@.len() as int);
    let ghost st: int = et - fl + 3;
    if z == d.len() {
        proof {
            assert(t.len() == 0);
            assert(dec_value(t) == 0);
            lemma_scaled_zero(st);
        }
        return DecimalRead::Value(0);
    }
    proof {
        assert(all_digits(t)) by {
            assert forall|j: int| 0 <= j < t.len() implies is_digit(#[trigger] t[j]) by {
                assert(t[j] == d@[z + j]);
            }
        }
        assert(t[0] == d@[z as int]);
    }
    let n: usize = d.len() - z;
    let sc: i128 = e - fl as i128 + 3;
    if n as i128 - 1 + sc >= 19 {
        proof {
            lemma_scaled_big(t, st);
        }
        DecimalRead::TooLarge
    } else if n as i128 + sc <= 0 {
        proof {
            lemma_scaled_small(t, st);
        }
        DecimalRead::Value(1)
    } else {
        assert(sc == st);
        scale_digits(d, z, sc)
    }
}

/// Read a decimal number (`digits[.digits][(e|E)[sign]digits]`) as a
/// count of thousandths, rounded up: milliseconds as microseconds.
pub fn read_decimal_micros(body: &[char]) -> (r: DecimalRead)
    ensures
        (r == DecimalRead::Invalid) <==> decimal_scaled(body@, 3) is None,
        r == DecimalRead::TooLarge ==> (decimal_scaled(body@, 3) matches Some(v) && v > i64::MAX),
        r matches DecimalRead::Value(x) ==> decimal_scaled(body@, 3) == Some(x as nat) && x
            <= i64::MAX,
{
    match decimal_parts(body) {
        None => DecimalRead::Invalid,
        Some((d, fl, e)) => {
            proof {
                let ip = int_digits(body@);
                let fp = frac_digits(body@);
                assert(all_digits(d@)) by {
                    assert forall|j: int| 0 <= j < d@.len() implies is_digit(#[trigger] d@[j]) by {
                        if j < ip.len() {
                            assert(d@[j] == ip[j]);
                        } else {
                            assert(d@[j] == fp[j - ip.len()]);
                        }
                    }
                }
            }
            scale_thousandths(&d, fl, e, Ghost(exponent(body@)->0))
        },
    }
}

} // verus!
