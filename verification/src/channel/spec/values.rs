//! Value grammars of the channel-spec language: integers (with the
//! standard library's error messages), decimal milliseconds, swing.

use vstd::prelude::*;
use crate::channel::spec::error::{ChannelSpecError, SpecErrV};
use crate::channel::spec::tokenize::find_char;
use crate::notation::tbase_from_name;
use crate::swing::SwingConfig;
use crate::channel::spec::decimal::{decimal_scaled, read_decimal_micros, DecimalRead};
use crate::text::{
    chars_of, digit_value, parse_int, parse_int_spec, push_str, slice_chars,
    string_from, IntErrorKind,
};
use crate::time::TBase;

verus! {

/// The standard library's message for an integer parse failure.
pub open spec fn int_err_msg(e: IntErrorKind) -> Seq<char> {
    match e {
        IntErrorKind::Empty => "cannot parse integer from empty string"@,
        IntErrorKind::InvalidDigit => "invalid digit found in string"@,
        IntErrorKind::PosOverflow => "number too large to fit in target type"@,
        IntErrorKind::NegOverflow => "number too small to fit in target type"@,
    }
}

/// The message of an integer parse failure.
pub fn int_error_message(e: IntErrorKind) -> (s: String)
    ensures
        s@ == int_err_msg(e),
{
    let mut s = String::new();
    match e {
        IntErrorKind::Empty => push_str(&mut s, "cannot parse integer from empty string"),
        IntErrorKind::InvalidDigit => push_str(&mut s, "invalid digit found in string"),
        IntErrorKind::PosOverflow => push_str(&mut s, "number too large to fit in target type"),
        IntErrorKind::NegOverflow => push_str(&mut s, "number too small to fit in target type"),
    }
    s
}

/// The value of a run of decimal digits.
pub open spec fn dec_value(s: Seq<char>) -> nat
    decreases s.len(),
{
    if s.len() == 0 {
        0
    } else {
        dec_value(s.drop_last()) * 10 + digit_value(s.last())
    }
}

/// The code of a character, ASCII capitals taken to lower case.
pub open spec fn lower_code(c: char) -> u32 {
    if 65 <= (c as u32) <= 90 {
        (c as u32 + 32) as u32
    } else {
        c as u32
    }
}

/// Whether `s` spells `w` (lower case) in any case.
pub open spec fn spells(s: Seq<char>, w: Seq<char>) -> bool {
    s.len() == w.len() && forall|i: int| 0 <= i < s.len() ==> lower_code(#[trigger] s[i]) == w[i] as u32
}

/// The words a float parser reads as infinite or not a number.
pub open spec fn nonfinite_word(s: Seq<char>) -> bool {
    spells(s, "inf"@) || spells(s, "infinity"@) || spells(s, "nan"@)
}

/// A delay in milliseconds: an optional sign, then a decimal number
/// (`digits[.digits]`, optionally with an exponent), as whole
/// microseconds rounded up. The words of infinity and not-a-number,
/// values below zero, other forms and values past `i64` are refused
/// with a message.
pub open spec fn delay_spec(v: Seq<char>) -> Result<int, Seq<char>> {
    let neg = v.len() > 0 && v[0] == '-';
    let body = if v.len() > 0 && (v[0] == '+' || v[0] == '-') {
        v.subrange(1, v.len() as int)
    } else {
        v
    };
    if nonfinite_word(body) {
        Err("must be finite"@)
    } else {
        match decimal_scaled(body, 3) {
            None => Err("expected decimal milliseconds"@),
            Some(us) => if neg && us > 0 {
                Err("must be non-negative"@)
            } else if us > i64::MAX {
                Err("out of range"@)
            } else {
                Ok(us as int)
            },
        }
    }
}

fn lower_char_code(c: char) -> (r: u32)
    ensures
        r == lower_code(c),
{
    let u = c as u32;
    if u >= 65 && u <= 90 {
        u + 32
    } else {
        u
    }
}

/// Whether `s` spells `w` in any case.
fn spells_word(s: &[char], w: &str) -> (r: bool)
    ensures
        r == spells(s@, w@),
{
    let wc = chars_of(w);
    if s.len() != wc.len() {
        return false;
    }
    let mut i: usize = 0;
    while i < s.len()
        invariant
            0 <= i <= s@.len(),
            s@.len() == wc@.len(),
            wc@ == w@,
            forall|j: int| 0 <= j < i ==> lower_code(#[trigger] s@[j]) == w@[j] as u32,
        decreases s.len() - i,
    {
        if lower_char_code(s[i]) != wc[i] as u32 {
            return false;
        }
        i += 1;
    }
    true
}

/// Parse a delay given in milliseconds into microseconds.
pub fn parse_delay_ms(v: &[char]) -> (r: Result<i64, String>)
    ensures
        match r {
            Ok(us) => delay_spec(v@) == Ok::<int, Seq<char>>(us as int),
            Err(m) => delay_spec(v@) == Err::<int, Seq<char>>(m@),
        },
{
    let neg = v.len() > 0 && v[0] == '-';
    let body = if v.len() > 0 && (v[0] == '+' || v[0] == '-') {
        slice_chars(v, 1, v.len())
    } else {
        slice_chars(v, 0, v.len())
    };
    assert(v@.subrange(0, v@.len() as int) =~= v@);
    let mut m = String::new();
    if spells_word(body.as_slice(), "inf") || spells_word(body.as_slice(), "infinity") || spells_word(
        body.as_slice(),
        "nan",
    ) {
        push_str(&mut m, "must be finite");
        return Err(m);
    }
    match read_decimal_micros(body.as_slice()) {
        DecimalRead::Invalid => {
            push_str(&mut m, "expected decimal milliseconds");
            Err(m)
        },
        DecimalRead::TooLarge => {
            if neg {
                push_str(&mut m, "must be non-negative");
            } else {
                push_str(&mut m, "out of range");
            }
            Err(m)
        },
        DecimalRead::Value(x) => {
            if neg && x > 0 {
                push_str(&mut m, "must be non-negative");
                Err(m)
            } else {
                Ok(x as i64)
            }
        },
    }
}

/// The message of an unknown swing resolution.
pub open spec fn resolution_err_msg(s: Seq<char>) -> Seq<char> {
    "invalid resolution `"@ + s + "`"@
}

/// `swing=[TBase:]i8`: before the first `:` a resolution, after it
/// the amount; without `:`, the amount at resolution `T8`.
pub open spec fn swing_spec(v: Seq<char>) -> Result<SwingConfig, SpecErrV> {
    let colon = find_char(v, 0, ':');
    if colon < v.len() {
        let res = v.subrange(0, colon as int);
        let amt = v.subrange(colon + 1int, v.len() as int);
        match tbase_from_name(res) {
            None => Err(SpecErrV::BadValue("swing"@, resolution_err_msg(res))),
            Some(r) => match parse_int_spec(amt, -128, 127) {
                Ok(a) => Ok(SwingConfig { resolution: r, amount: a as i8 }),
                Err(e) => Err(SpecErrV::BadValue("swing"@, int_err_msg(e))),
            },
        }
    } else {
        match parse_int_spec(v, -128, 127) {
            Ok(a) => Ok(SwingConfig { resolution: TBase::T8, amount: a as i8 }),
            Err(e) => Err(SpecErrV::BadValue("swing"@, int_err_msg(e))),
        }
    }
}

/// Parse a `swing=` value.
pub fn parse_swing(v: &[char]) -> (r: Result<SwingConfig, ChannelSpecError>)
    ensures
        match r {
            Ok(c) => swing_spec(v@) == Ok::<SwingConfig, SpecErrV>(c),
            Err(e) => swing_spec(v@) == Err::<SwingConfig, SpecErrV>(e@),
        },
{
    let mut colon: usize = 0;
    while colon < v.len() && v[colon] != ':'
        invariant
            0 <= colon <= v@.len(),
            find_char(v@, 0, ':') == find_char(v@, colon as nat, ':'),
        decreases v.len() - colon,
    {
        colon += 1;
    }
    if colon < v.len() {
        let res = slice_chars(v, 0, colon);
        let amt = slice_chars(v, colon + 1, v.len());
        match TBase::from_name(res.as_slice()) {
            None => {
                let mut m = String::new();
                push_str(&mut m, "invalid resolution `");
                let rs = string_from(&res, 0, res.len());
                push_str(&mut m, rs.as_str());
                push_str(&mut m, "`");
                assert(res@.subrange(0, res@.len() as int) =~= res@);
                assert(m@ =~= resolution_err_msg(res@));
                Err(ChannelSpecError::BadValue("swing", m))
            },
            Some(r) => match parse_int(amt.as_slice(), -128, 127) {
                Ok(a) => Ok(SwingConfig { resolution: r, amount: a as i8 }),
                Err(e) => Err(ChannelSpecError::BadValue("swing", int_error_message(e))),
            },
        }
    } else {
        match parse_int(v, -128, 127) {
            Ok(a) => Ok(SwingConfig { resolution: TBase::T8, amount: a as i8 }),
            Err(e) => Err(ChannelSpecError::BadValue("swing", int_error_message(e))),
        }
    }
}

} // verus!
