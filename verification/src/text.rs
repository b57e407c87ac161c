//! Character-level helpers shared by the grid-expression lexer and the
//! channel-spec parser: collecting a string's characters, building
//! strings, decimal formatting and decimal integer parsing.

use vstd::prelude::*;

verus! {

/// Append one character to a string.
#[verifier::external_body]
pub(crate) fn push_char(s: &mut String, c: char)
    ensures
        final(s)@ == old(s)@.push(c),
{
    s.push(c);
}

/// The characters of a string, in order.
pub fn chars_of(s: &str) -> (v: Vec<char>)
    ensures
        v@ == s@,
{
    let mut v: Vec<char> = Vec::new();
    for c in it: s.chars()
        invariant
            v@ == it.seq().take(it.index() as int),
    {
        v.push(c);
    }
    v
}

/// A string holding `chars[from..to]`.
pub fn string_from(chars: &Vec<char>, from: usize, to: usize) -> (s: String)
    requires
        from <= to <= chars@.len(),
    ensures
        s@ == chars@.subrange(from as int, to as int),
{
    let mut s = String::new();
    let mut i = from;
    while i < to
        invariant
            from <= i <= to <= chars@.len(),
            s@ == chars@.subrange(from as int, i as int),
        decreases to - i,
    {
        push_char(&mut s, chars[i]);
        i += 1;
        assert(s@ =~= chars@.subrange(from as int, i as int));
    }
    s
}

/// Append every character of `t` to `s`.
pub fn push_seq(s: &mut String, t: &Vec<char>)
    ensures
        final(s)@ == old(s)@ + t@,
{
    let mut i: usize = 0;
    while i < t.len()
        invariant
            0 <= i <= t@.len(),
            s@ == old(s)@ + t@.subrange(0, i as int),
        decreases t.len() - i,
    {
        push_char(s, t[i]);
        i += 1;
        assert(s@ =~= old(s)@ + t@.subrange(0, i as int));
    }
    assert(t@.subrange(0, t@.len() as int) =~= t@);
}

/// Append every character of `t` to `s`.
pub fn push_str(s: &mut String, t: &str)
    ensures
        final(s)@ == old(s)@ + t@,
{
    let v = chars_of(t);
    push_seq(s, &v);
}

/// The decimal digit character for `d < 10`.
pub open spec fn digit_char(d: nat) -> char {
    if d == 0 {
        '0'
    } else if d == 1 {
        '1'
    } else if d == 2 {
        '2'
    } else if d == 3 {
        '3'
    } else if d == 4 {
        '4'
    } else if d == 5 {
        '5'
    } else if d == 6 {
        '6'
    } else if d == 7 {
        '7'
    } else if d == 8 {
        '8'
    } else {
        '9'
    }
}

/// Whether `c` is an ASCII decimal digit.
pub open spec fn is_digit(c: char) -> bool {
    '0' <= c && c <= '9'
}

/// The value of an ASCII decimal digit.
pub open spec fn digit_value(c: char) -> nat {
    (c as nat - '0' as nat) as nat
}

/// Decimal representation of a natural number, without leading zeros.
pub open spec fn nat_decimal(n: nat) -> Seq<char>
    decreases n,
{
    if n < 10 {
        seq![digit_char(n)]
    } else {
        nat_decimal(n / 10).push(digit_char(n % 10))
    }
}

/// Decimal representation of an integer, with a leading `-` when
/// negative.
pub open spec fn int_decimal(i: int) -> Seq<char> {
    if i < 0 {
        seq!['-'] + nat_decimal((-i) as nat)
    } else {
        nat_decimal(i as nat)
    }
}

fn digit(d: u64) -> (c: char)
    requires
        d < 10,
    ensures
        c == digit_char(d as nat),
{
    if d == 0 {
        '0'
    } else if d == 1 {
        '1'
    } else if d == 2 {
        '2'
    } else if d == 3 {
        '3'
    } else if d == 4 {
        '4'
    } else if d == 5 {
        '5'
    } else if d == 6 {
        '6'
    } else if d == 7 {
        '7'
    } else if d == 8 {
        '8'
    } else {
        '9'
    }
}

/// Append the decimal representation of `n` to `s`.
pub fn push_u64(s: &mut String, n: u64)
    ensures
        final(s)@ == old(s)@ + nat_decimal(n as nat),
    decreases n,
{
    if n < 10 {
        push_char(s, digit(n));
    } else {
        push_u64(s, n / 10);
        push_char(s, digit(n % 10));
        assert(final(s)@ =~= old(s)@ + nat_decimal(n as nat));
    }
}

/// Append the decimal representation of `n` to `s`.
pub fn push_i64(s: &mut String, n: i64)
    ensures
        final(s)@ == old(s)@ + int_decimal(n as int),
{
    if n < 0 {
        push_char(s, '-');
        let m: u64 = if n == i64::MIN {
            9223372036854775808u64
        } else {
            (-n) as u64
        };
        push_u64(s, m);
        assert(final(s)@ =~= old(s)@ + int_decimal(n as int));
    } else {
        push_u64(s, n as u64);
    }
}

/// Why a decimal integer failed to parse, mirroring the standard
/// library's integer parser.
#[derive(Copy, Clone, Debug, PartialEq, Eq)]
pub enum IntErrorKind {
    /// The input was empty.
    Empty,
    /// A character was not a decimal digit (or a lone sign).
    InvalidDigit,
    /// The value exceeds the target type's maximum.
    PosOverflow,
    /// The value is below the target type's minimum.
    NegOverflow,
}

/// Accumulate digits `s[i..]` onto `acc` (positive direction), failing
/// at the first non-digit or at the first step past `hi`.
pub open spec fn accumulate_pos(s: Seq<char>, i: nat, acc: int, hi: int) -> Result<
    int,
    IntErrorKind,
>
    decreases s.len() - i,
{
    if i >= s.len() {
        Ok(acc)
    } else if !is_digit(s[i as int]) {
        Err(IntErrorKind::InvalidDigit)
    } else if acc * 10 > hi || acc * 10 + digit_value(s[i as int]) > hi {
        Err(IntErrorKind::PosOverflow)
    } else {
        accumulate_pos(s, i + 1, acc * 10 + digit_value(s[i as int]), hi)
    }
}

/// Accumulate digits `s[i..]` onto `acc` (negative direction), failing
/// at the first non-digit or at the first step below `lo`.
pub open spec fn accumulate_neg(s: Seq<char>, i: nat, acc: int, lo: int) -> Result<
    int,
    IntErrorKind,
>
    decreases s.len() - i,
{
    if i >= s.len() {
        Ok(acc)
    } else if !is_digit(s[i as int]) {
        Err(IntErrorKind::InvalidDigit)
    } else if acc * 10 < lo || acc * 10 - digit_value(s[i as int]) < lo {
        Err(IntErrorKind::NegOverflow)
    } else {
        accumulate_neg(s, i + 1, acc * 10 - digit_value(s[i as int]), lo)
    }
}

/// The standard library's decimal integer parser for a type with range
/// `[lo, hi]` (`lo < 0` for signed types): an optional sign (`-` only
/// for signed types) followed by at least one decimal digit.
pub open spec fn parse_int_spec(s: Seq<char>, lo: int, hi: int) -> Result<int, IntErrorKind> {
    if s.len() == 0 {
        Err(IntErrorKind::Empty)
    } else if s.len() == 1 && (s[0] == '+' || s[0] == '-') {
        Err(IntErrorKind::InvalidDigit)
    } else if s[0] == '+' {
        accumulate_pos(s, 1, 0, hi)
    } else if s[0] == '-' && lo < 0 {
        accumulate_neg(s, 1, 0, lo)
    } else {
        accumulate_pos(s, 0, 0, hi)
    }
}

/// Parse `s` as a decimal integer in `[lo, hi]`, exactly as the
/// standard library parses the integer type with that range.
pub fn parse_int(s: &[char], lo: i128, hi: i128) -> (r: Result<i128, IntErrorKind>)
    requires
        -0x8000_0000_0000_0000 <= lo <= 0 < hi <= 0xffff_ffff_ffff_ffff,
    ensures
        match r {
            Ok(v) => parse_int_spec(s@, lo as int, hi as int) == Ok::<int, IntErrorKind>(v as int)
                && lo <= v <= hi,
            Err(e) => parse_int_spec(s@, lo as int, hi as int) == Err::<int, IntErrorKind>(e),
        },
{
    let n = s.len();
    if n == 0 {
        return Err(IntErrorKind::Empty);
    }
    if n == 1 && (s[0] == '+' || s[0] == '-') {
        return Err(IntErrorKind::InvalidDigit);
    }
    let negative = s[0] == '-' && lo < 0;
    let mut i: usize = if s[0] == '+' || negative {
        1
    } else {
        0
    };
    let ghost start = i as nat;
    let mut acc: i128 = 0;
    while i < n
        invariant
            n == s@.len(),
            start <= i <= n,
            -0x8000_0000_0000_0000 <= lo <= 0 < hi <= 0xffff_ffff_ffff_ffff,
            negative ==> lo <= acc <= 0,
            !negative ==> 0 <= acc <= hi,
            negative ==> parse_int_spec(s@, lo as int, hi as int) == accumulate_neg(
                s@,
                i as nat,
                acc as int,
                lo as int,
            ),
            !negative ==> parse_int_spec(s@, lo as int, hi as int) == accumulate_pos(
                s@,
                i as nat,
                acc as int,
                hi as int,
            ),
        decreases n - i,
    {
        let c = s[i];
        if !('0' <= c && c <= '9') {
            return Err(IntErrorKind::InvalidDigit);
        }
        let d = (c as u32 - '0' as u32) as i128;
        if negative {
            if acc * 10 < lo || acc * 10 - d < lo {
                return Err(IntErrorKind::NegOverflow);
            }
            acc = acc * 10 - d;
        } else {
            if acc * 10 > hi || acc * 10 + d > hi {
                return Err(IntErrorKind::PosOverflow);
            }
            acc = acc * 10 + d;
        }
        i += 1;
    }
    Ok(acc)
}

/// Every character of `s` is an ASCII decimal digit.
pub open spec fn all_digits(s: Seq<char>) -> bool {
    forall|i: int| 0 <= i < s.len() ==> is_digit(#[trigger] s[i])
}

/// The digits of a decimal representation are digits.
pub proof fn lemma_nat_decimal_digits(n: nat)
    ensures
        all_digits(nat_decimal(n)),
        nat_decimal(n).len() >= 1,
    decreases n,
{
    if n >= 10 {
        lemma_nat_decimal_digits(n / 10);
        let s = nat_decimal(n / 10).push(digit_char(n % 10));
        assert forall|i: int| 0 <= i < s.len() implies is_digit(#[trigger] s[i]) by {
            if i < s.len() - 1 {
                assert(s[i] == nat_decimal(n / 10)[i]);
            }
        }
    }
}

/// Accumulating a prefix that parses cleanly hands its value on to the
/// rest of the input.
pub proof fn lemma_accumulate_pos_prefix(a: Seq<char>, b: Seq<char>, i: nat, acc: int, hi: int, v: int)
    requires
        i <= a.len(),
        accumulate_pos(a, i, acc, hi) == Ok::<int, IntErrorKind>(v),
    ensures
        accumulate_pos(a + b, i, acc, hi) == accumulate_pos(a + b, a.len(), v, hi),
    decreases a.len() - i,
{
    if i < a.len() {
        let d = digit_value(a[i as int]);
        assert((a + b)[i as int] == a[i as int]);
        lemma_accumulate_pos_prefix(a, b, i + 1, acc * 10 + d, hi, v);
    }
}

/// The standard decimal parser reads a decimal representation back.
pub proof fn lemma_parse_nat_decimal(n: nat, hi: int)
    requires
        n <= hi,
    ensures
        accumulate_pos(nat_decimal(n), 0, 0, hi) == Ok::<int, IntErrorKind>(n as int),
    decreases n,
{
    if n < 10 {
        let s = nat_decimal(n);
        assert(s.len() == 1);
        assert(digit_value(s[0]) == n);
        assert(accumulate_pos(s, 1, n as int, hi) == Ok::<int, IntErrorKind>(n as int));
    } else {
        let a = nat_decimal(n / 10);
        let b = seq![digit_char(n % 10)];
        lemma_parse_nat_decimal(n / 10, hi);
        lemma_nat_decimal_digits(n / 10);
        assert(nat_decimal(n) == a + b);
        lemma_accumulate_pos_prefix(a, b, 0, 0, hi, (n / 10) as int);
        let s = a + b;
        assert(s[a.len() as int] == digit_char(n % 10));
        assert(digit_value(digit_char(n % 10)) == n % 10);
        assert((n / 10) * 10 + n % 10 == n);
        assert(accumulate_pos(s, a.len() + 1, n as int, hi) == Ok::<int, IntErrorKind>(n as int));
    }
}

/// A decimal representation parses to its value under the standard
/// parser for any range that holds it.
pub proof fn lemma_parse_int_nat_decimal(n: nat, lo: int, hi: int)
    requires
        n <= hi,
    ensures
        parse_int_spec(nat_decimal(n), lo, hi) == Ok::<int, IntErrorKind>(n as int),
{
    lemma_parse_nat_decimal(n, hi);
    lemma_nat_decimal_digits(n);
    let s = nat_decimal(n);
    assert(is_digit(s[0]));
}

/// The characters `s[from..to]` as a vector.
pub fn slice_chars(s: &[char], from: usize, to: usize) -> (v: Vec<char>)
    requires
        from <= to <= s@.len(),
    ensures
        v@ == s@.subrange(from as int, to as int),
{
    let mut v: Vec<char> = Vec::new();
    let mut i = from;
    while i < to
        invariant
            from <= i <= to <= s@.len(),
            v@ == s@.subrange(from as int, i as int),
        decreases to - i,
    {
        v.push(s[i]);
        i += 1;
        assert(v@ =~= s@.subrange(from as int, i as int));
    }
    v
}

/// Whether every character of `s` is an ASCII decimal digit.
pub fn is_all_digits(s: &[char]) -> (r: bool)
    ensures
        r == all_digits(s@),
{
    let mut i: usize = 0;
    while i < s.len()
        invariant
            0 <= i <= s@.len(),
            forall|j: int| 0 <= j < i ==> is_digit(#[trigger] s@[j]),
        decreases s.len() - i,
    {
        if !('0' <= s[i] && s[i] <= '9') {
            return false;
        }
        i += 1;
    }
    true
}

} // verus!
