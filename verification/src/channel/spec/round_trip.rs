//! Printing a channel spec and parsing the text back gives the spec:
//! every value printer is inverted by its parser, the printed pairs
//! tokenize back to themselves, and applying them rebuilds the spec.

use vstd::prelude::*;
use crate::channel::spec::display::{delay_text, opt_field, pad3, role_text, spec_text, swing_text};
use crate::channel::spec::error::SpecErrV;
use crate::channel::spec::tokenize::{
    find_char, is_ws, pairs_from, quote_spec, skip_sep, skip_ws, tokenize_spec, trim, trim_range, ws_lead,
    ws_trail,
};
use crate::channel::spec::decimal::{lemma_dec_concat, lemma_find_exp_at, pow10};
use crate::channel::spec::values::{dec_value, delay_spec, lower_code, nonfinite_word, spells, swing_spec};
use crate::notation::{lemma_tbase_name_round_trip, tbase_from_name, tbase_name, tbase_num};
use crate::swing::SwingConfig;
use crate::text::{
    accumulate_neg, accumulate_pos, all_digits, digit_char, digit_value, int_decimal, is_digit,
    lemma_nat_decimal_digits, lemma_parse_int_nat_decimal, lemma_parse_nat_decimal, nat_decimal,
    parse_int_spec, IntErrorKind,
};
use crate::time::TBase;
use crate::channel::role::{MidiClickConfig, MidiRole};
use crate::channel::spec::types::ChannelSpecV;
use crate::notation::grid_name;
use crate::time::Grid;

verus! {

/// Reading digits with a negative accumulator mirrors reading them
/// with a positive one against the mirrored bound.
proof fn lemma_accumulate_mirror(s: Seq<char>, i: nat, acc: int, lo: int, v: int)
    requires
        accumulate_pos(s, i, acc, -lo) == Ok::<int, IntErrorKind>(v),
    ensures
        accumulate_neg(s, i, -acc, lo) == Ok::<int, IntErrorKind>(-v),
    decreases s.len() - i,
{
    if i < s.len() {
        let d = digit_value(s[i as int]);
        assert(-acc * 10 == -(acc * 10)) by (nonlinear_arith);
        lemma_accumulate_mirror(s, i + 1, acc * 10 + d, lo, v);
        assert(-acc * 10 - d == -(acc * 10 + d)) by (nonlinear_arith);
    }
}

/// Reading digits after a one-character prefix is reading them alone.
proof fn lemma_accumulate_shift(c: char, d: Seq<char>, i: nat, acc: int, hi: int)
    requires
        i <= d.len(),
    ensures
        accumulate_pos(seq![c] + d, i + 1, acc, hi) == accumulate_pos(d, i, acc, hi),
    decreases d.len() - i,
{
    if i < d.len() {
        assert((seq![c] + d)[i as int + 1] == d[i as int]);
        lemma_accumulate_shift(c, d, i + 1, acc * 10 + digit_value(d[i as int]), hi);
    }
}

/// The standard parser reads a signed decimal back, in any range that
/// holds it.
pub proof fn lemma_parse_int_decimal(i: int, lo: int, hi: int)
    requires
        lo <= i <= hi,
    ensures
        parse_int_spec(int_decimal(i), lo, hi) == Ok::<int, IntErrorKind>(i),
{
    if i >= 0 {
        lemma_parse_int_nat_decimal(i as nat, lo, hi);
    } else {
        let n = (-i) as nat;
        let d = nat_decimal(n);
        lemma_nat_decimal_digits(n);
        lemma_parse_nat_decimal(n, -lo);
        lemma_accumulate_shift('-', d, 0, 0, -lo);
        lemma_accumulate_mirror(seq!['-'] + d, 1, 0, lo, n as int);
        assert(int_decimal(i) == seq!['-'] + d);
        assert((seq!['-'] + d)[0] == '-');
    }
}

/// A digit character's value is the digit.
proof fn lemma_digit_value_char(d: nat)
    requires
        d < 10,
    ensures
        digit_value(digit_char(d)) == d,
        is_digit(digit_char(d)),
        digit_char(d) != '.',
        digit_char(d) != ':',
{
}

/// The value of a decimal representation is the number.
pub proof fn lemma_dec_value_nat_decimal(n: nat)
    ensures
        dec_value(nat_decimal(n)) == n,
    decreases n,
{
    lemma_digit_value_char(n % 10);
    let s = nat_decimal(n);
    if n >= 10 {
        lemma_dec_value_nat_decimal(n / 10);
        assert(s.drop_last() =~= nat_decimal(n / 10));
        assert(s.last() == digit_char(n % 10));
        assert((n / 10) * 10 + n % 10 == n);
    } else {
        assert(s.drop_last() =~= Seq::<char>::empty());
        assert(dec_value(Seq::<char>::empty()) == 0);
        assert(s.last() == digit_char(n));
    }
}

/// `find_char` stops at the first occurrence.
proof fn lemma_find_char_at(s: Seq<char>, pos: nat, k: nat, c: char)
    requires
        pos <= k <= s.len(),
        forall|i: int| pos <= i < k ==> s[i] != c,
        k == s.len() || s[k as int] == c,
    ensures
        find_char(s, pos, c) == k,
    decreases k - pos,
{
    if pos < k {
        lemma_find_char_at(s, pos + 1, k, c);
    }
}

/// The printed value of a positive delay: whole milliseconds, or with
/// three decimals.
pub open spec fn delay_value(us: int) -> Seq<char> {
    if us % 1000 == 0 {
        nat_decimal((us / 1000) as nat)
    } else {
        nat_decimal((us / 1000) as nat) + seq!['.'] + pad3((us % 1000) as nat)
    }
}

/// The delay parser reads a printed positive delay back.
pub proof fn lemma_delay_round_trip(us: int)
    requires
        0 < us <= i64::MAX,
    ensures
        delay_spec(delay_value(us)) == Ok::<int, Seq<char>>(us),
        delay_text(us) == ",delay="@ + delay_value(us),
{
    let n = (us / 1000) as nat;
    let r = (us % 1000) as nat;
    let d = nat_decimal(n);
    lemma_nat_decimal_digits(n);
    lemma_dec_value_nat_decimal(n);
    let v = delay_value(us);
    assert(is_digit(d[0]));
    assert(v[0] == d[0]);
    assert forall|i: int| 0 <= i < d.len() implies #[trigger] d[i] != '.' && d[i] != 'e' && d[i]
        != 'E' by {
        assert(is_digit(d[i]));
    }
    assert(!nonfinite_word(v)) by {
        reveal_strlit("inf");
        reveal_strlit("infinity");
        reveal_strlit("nan");
        assert(lower_code(v[0]) == v[0] as u32);
        if spells(v, "inf"@) || spells(v, "infinity"@) || spells(v, "nan"@) {
            assert(lower_code(v[0]) == 'i' as u32 || lower_code(v[0]) == 'n' as u32);
        }
    }
    reveal_with_fuel(pow10, 4);
    if r == 0 {
        assert(v == d);
        lemma_find_exp_at(v, 0, v.len());
        lemma_find_char_at(v, 0, v.len(), '.');
        assert(v.subrange(0, v.len() as int) =~= v);
        assert(all_digits(Seq::<char>::empty()));
        assert(d + Seq::<char>::empty() =~= d);
    } else {
        let p = pad3(r);
        lemma_digit_value_char(r / 100);
        lemma_digit_value_char((r / 10) % 10);
        lemma_digit_value_char(r % 10);
        assert(v == d + seq!['.'] + p);
        assert forall|i: int| 0 <= i < d.len() implies v[i] != '.' by {
            assert(v[i] == d[i]);
        }
        assert forall|i: int| 0 <= i < v.len() implies v[i] != 'e' && v[i] != 'E' by {
            if i < d.len() {
                assert(v[i] == d[i]);
            } else if i > d.len() {
                assert(v[i] == p[i - d.len() - 1]);
            }
        }
        lemma_find_exp_at(v, 0, v.len());
        assert(v.subrange(0, v.len() as int) =~= v);
        assert(v[d.len() as int] == '.');
        lemma_find_char_at(v, 0, d.len(), '.');
        assert(v.subrange(0, d.len() as int) =~= d);
        assert(v.subrange(d.len() as int + 1, v.len() as int) =~= p);
        assert(all_digits(p));
        lemma_dec_concat(d, p);
        let p1 = p.drop_last();
        let p2 = p1.drop_last();
        assert(p2.drop_last() =~= Seq::<char>::empty());
        assert(dec_value(Seq::<char>::empty()) == 0);
        assert(p2.last() == p[0] && p1.last() == p[1] && p.last() == p[2]);
        assert(dec_value(p2) == digit_value(p[0]));
        assert(dec_value(p1) == digit_value(p[0]) * 10 + digit_value(p[1]));
        assert(dec_value(p) == r);
        assert(r == (r / 100) * 100 + ((r / 10) % 10) * 10 + r % 10);
    }
    assert(us == n * 1000 + r);
    reveal_strlit(",delay=");
}

/// The printed value of a swing that is not the default: the bare
/// amount at `T8`, else `resolution:amount`.
pub open spec fn swing_value(res: TBase, amount: i8) -> Seq<char> {
    if res == TBase::T8 {
        int_decimal(amount as int)
    } else {
        tbase_name(res) + seq![':'] + int_decimal(amount as int)
    }
}

/// A signed decimal has no colon.
proof fn lemma_int_decimal_no_colon(i: int)
    ensures
        forall|k: int| 0 <= k < int_decimal(i).len() ==> #[trigger] int_decimal(i)[k] != ':',
{
    let n = if i < 0 { (-i) as nat } else { i as nat };
    lemma_nat_decimal_digits(n);
    let d = nat_decimal(n);
    assert forall|k: int| 0 <= k < int_decimal(i).len() implies #[trigger] int_decimal(i)[k] != ':' by {
        if i < 0 {
            assert(int_decimal(i) == seq!['-'] + d);
            if k > 0 {
                assert(int_decimal(i)[k] == d[k - 1]);
                assert(is_digit(d[k - 1]));
            }
        } else {
            assert(is_digit(d[k]));
        }
    }
}

/// The swing parser reads a printed swing back.
pub proof fn lemma_swing_round_trip(res: TBase, amount: i8)
    ensures
        swing_spec(swing_value(res, amount)) == Ok::<SwingConfig, crate::channel::spec::error::SpecErrV>(
            SwingConfig { resolution: res, amount },
        ),
{
    let v = swing_value(res, amount);
    let a = int_decimal(amount as int);
    lemma_int_decimal_no_colon(amount as int);
    lemma_parse_int_decimal(amount as int, -128, 127);
    if res == TBase::T8 {
        lemma_find_char_at(v, 0, v.len(), ':');
    } else {
        let t = tbase_name(res);
        let num = tbase_num(res);
        lemma_nat_decimal_digits(num);
        assert forall|i: int| 0 <= i < t.len() implies #[trigger] v[i] != ':' by {
            assert(v[i] == t[i]);
            if i > 0 {
                assert(t[i] == nat_decimal(num)[i - 1]);
                assert(is_digit(nat_decimal(num)[i - 1]));
            }
        }
        assert(v[t.len() as int] == ':');
        lemma_find_char_at(v, 0, t.len(), ':');
        assert(v.subrange(0, t.len() as int) =~= t);
        assert(v.subrange(t.len() as int + 1, v.len() as int) =~= a);
        lemma_tbase_name_round_trip(res);
    }
}

/// A key the tokenizer reads back: not empty, and without white
/// space, comma, `=` or double quote.
pub open spec fn key_ok(k: Seq<char>) -> bool {
    &&& k.len() > 0
    &&& forall|i: int|
        0 <= i < k.len() ==> !is_ws(#[trigger] k[i]) && k[i] != ',' && k[i] != '=' && k[i] != '"'
}

/// A value the tokenizer reads back: no double quote.
pub open spec fn val_ok(v: Seq<char>) -> bool {
    forall|i: int| 0 <= i < v.len() ==> #[trigger] v[i] != '"'
}

/// The text of one pair after a separator: `,key=value`, the value
/// quoted when it needs it.
pub open spec fn pair_text(p: (Seq<char>, Seq<char>)) -> Seq<char> {
    seq![','] + p.0 + seq!['='] + quote_spec(p.1)
}

/// The texts of pairs, in order.
pub open spec fn pairs_text(ps: Seq<(Seq<char>, Seq<char>)>) -> Seq<char>
    decreases ps.len(),
{
    if ps.len() == 0 {
        Seq::empty()
    } else {
        pair_text(ps[0]) + pairs_text(ps.drop_first())
    }
}

/// Every pair has a readable key and value.
pub open spec fn pairs_ok(ps: Seq<(Seq<char>, Seq<char>)>) -> bool {
    forall|i: int| 0 <= i < ps.len() ==> key_ok(#[trigger] ps[i].0) && val_ok(ps[i].1)
}

proof fn lemma_trim_plain(t: Seq<char>, from: nat, to: nat)
    requires
        from <= to <= t.len(),
        forall|i: int| from <= i < to ==> !is_ws(#[trigger] t[i]),
    ensures
        trim_range(t, from, to) == t.subrange(from as int, to as int),
{
}

proof fn lemma_skip_stops(t: Seq<char>, pos: nat)
    requires
        pos == t.len() || (!is_ws(t[pos as int]) && t[pos as int] != ','),
    ensures
        skip_sep(t, pos) == pos,
{
}

proof fn lemma_skip_ws_stops(t: Seq<char>, pos: nat)
    requires
        pos == t.len() || !is_ws(t[pos as int]),
    ensures
        skip_ws(t, pos) == pos,
{
}

/// Tokenizing one pair's text, `pre` being a separating comma or
/// nothing, reads the pair and goes on after it.
pub proof fn lemma_pairs_one(
    t: Seq<char>,
    pos: nat,
    acc: Seq<(Seq<char>, Seq<char>)>,
    pre: Seq<char>,
    k: Seq<char>,
    v: Seq<char>,
)
    requires
        pre == seq![','] || pre.len() == 0,
        key_ok(k),
        val_ok(v),
        pos + (pre + k + seq!['='] + quote_spec(v)).len() <= t.len(),
        t.subrange(pos as int, pos as int + (pre + k + seq!['='] + quote_spec(v)).len()) == pre + k + seq!['=']
            + quote_spec(v),
        pos + (pre + k + seq!['='] + quote_spec(v)).len() == t.len() || t[pos as int + (pre + k + seq!['='] + quote_spec(v)).len()]
            == ',',
    ensures
        pairs_from(t, pos, acc) == pairs_from(
            t,
            pos + (pre + k + seq!['='] + quote_spec(v)).len(),
            acc.push((k, v)),
        ),
{
    let q = quote_spec(v);
    let x = pre + k + seq!['='] + q;
    let end = pos + x.len();
    assert forall|i: int| 0 <= i < x.len() implies #[trigger] t[pos + i] == x[i] by {
        assert(t.subrange(pos as int, end as int)[i] == t[pos + i]);
    }
    let p0 = pos + pre.len();
    if pre.len() == 1 {
        assert(t[pos as int] == x[0]);
        assert(x[0] == ',');
    }
    assert(t[p0 as int] == x[pre.len() as int]);
    assert(x[pre.len() as int] == k[0]);
    lemma_skip_stops(t, p0);
    assert(skip_sep(t, pos) == p0);
    let eq = p0 + k.len();
    assert forall|i: int| p0 <= i < eq implies t[i] != '=' by {
        assert(t[i] == x[i - pos]);
        assert(x[i - pos] == k[i - p0]);
    }
    assert(t[eq as int] == x[(pre.len() + k.len()) as int]);
    assert(t[eq as int] == '=');
    lemma_find_char_at(t, p0, eq, '=');
    assert forall|i: int| p0 <= i < eq implies !is_ws(#[trigger] t[i]) by {
        assert(t[i] == x[i - pos]);
        assert(x[i - pos] == k[i - p0]);
    }
    lemma_trim_plain(t, p0, eq);
    assert(t.subrange(p0 as int, eq as int) =~= k) by {
        assert forall|i: int| 0 <= i < k.len() implies t.subrange(p0 as int, eq as int)[i] == k[i] by {
            assert(t[p0 + i] == x[pos + pre.len() + i - pos]);
        }
    }
    let p1 = eq + 1;
    assert forall|i: int| 0 <= i < q.len() implies #[trigger] t[p1 + i] == q[i] by {
        assert(t[p1 + i] == x[p1 + i - pos]);
    }
    if exists|i: int| 0 <= i < v.len() && (v[i] == ',' || v[i] == '=' || is_ws(v[i])) {
        assert(q == seq!['"'] + v + seq!['"']);
        assert(t[p1 as int] == x[p1 - pos]);
        assert(x[p1 - pos] == q[0]);
        lemma_skip_ws_stops(t, p1);
        let close = p1 + 1 + v.len();
        assert forall|i: int| p1 + 1 <= i < close implies t[i] != '"' by {
            assert(t[i] == x[i - pos]);
            assert(x[i - pos] == q[i - p1]);
            assert(q[i - p1] == v[i - p1 - 1]);
        }
        assert(t[close as int] == x[close - pos]);
        assert(x[close - pos] == q[(v.len() + 1) as int]);
        lemma_find_char_at(t, p1 + 1, close, '"');
        assert(t.subrange(p1 as int + 1, close as int) =~= v) by {
            assert forall|i: int| 0 <= i < v.len() implies t.subrange(p1 as int + 1, close as int)[i] == v[i] by {
                assert(t[p1 + 1 + i] == x[p1 + 1 + i - pos]);
                assert(x[p1 + 1 + i - pos] == q[1 + i]);
            }
        }
        assert(close + 1 == end);
    } else {
        assert(q == v);
        assert forall|i: int| 0 <= i < v.len() implies !is_ws(#[trigger] v[i]) && v[i] != ',' by {
        }
        if v.len() > 0 {
            assert(t[p1 as int] == x[p1 - pos]);
            assert(x[p1 - pos] == v[0]);
        }
        lemma_skip_ws_stops(t, p1);
        let comma = p1 + v.len();
        assert(comma == end);
        assert forall|i: int| p1 <= i < comma implies t[i] != ',' && !is_ws(#[trigger] t[i]) by {
            assert(t[i] == x[i - pos]);
            assert(x[i - pos] == v[i - p1]);
        }
        lemma_find_char_at(t, p1, comma, ',');
        lemma_trim_plain(t, p1, comma);
        assert(t.subrange(p1 as int, comma as int) =~= v) by {
            assert forall|i: int| 0 <= i < v.len() implies t.subrange(p1 as int, comma as int)[i] == v[i] by {
                assert(t[p1 + i] == x[p1 + i - pos]);
                assert(x[p1 + i - pos] == q[i]);
            }
        }
        if end == t.len() {
            assert(pairs_from(t, end, acc.push((k, v))) == Ok::<Seq<(Seq<char>, Seq<char>)>, SpecErrV>(
                acc.push((k, v)),
            ));
        }
    }
}

/// The text of concatenated pair lists is the concatenated texts.
pub proof fn lemma_pairs_text_concat(x: Seq<(Seq<char>, Seq<char>)>, y: Seq<(Seq<char>, Seq<char>)>)
    ensures
        pairs_text(x + y) == pairs_text(x) + pairs_text(y),
    decreases x.len(),
{
    if x.len() == 0 {
        assert(x + y =~= y);
    } else {
        assert((x + y).drop_first() =~= x.drop_first() + y);
        assert((x + y)[0] == x[0]);
        lemma_pairs_text_concat(x.drop_first(), y);
        assert(pairs_text(x + y) =~= pairs_text(x) + pairs_text(y));
    }
}

/// Tokenizing the texts of pairs reads the pairs.
pub proof fn lemma_pairs_list(t: Seq<char>, pos: nat, acc: Seq<(Seq<char>, Seq<char>)>, ps: Seq<(Seq<char>, Seq<char>)>)
    requires
        pairs_ok(ps),
        pos + pairs_text(ps).len() <= t.len(),
        t.subrange(pos as int, pos as int + pairs_text(ps).len()) == pairs_text(ps),
        pos + pairs_text(ps).len() == t.len() || t[pos as int + pairs_text(ps).len()] == ',',
    ensures
        pairs_from(t, pos, acc) == pairs_from(t, pos + pairs_text(ps).len(), acc + ps),
    decreases ps.len(),
{
    if ps.len() == 0 {
        assert(acc + ps =~= acc);
    } else {
        let p = ps[0];
        let rest = ps.drop_first();
        let x = pair_text(p);
        let r = pairs_text(rest);
        assert(pairs_text(ps) == x + r);
        let whole = t.subrange(pos as int, pos as int + pairs_text(ps).len());
        assert(key_ok(p.0) && val_ok(p.1));
        assert(t.subrange(pos as int, pos as int + x.len()) =~= x) by {
            assert forall|i: int| 0 <= i < x.len() implies t.subrange(pos as int, pos as int + x.len())[i]
                == x[i] by {
                assert(whole[i] == (x + r)[i]);
            }
        }
        assert(t.subrange(pos as int + x.len(), pos as int + x.len() + r.len()) =~= r) by {
            assert forall|i: int| 0 <= i < r.len() implies t.subrange(
                pos as int + x.len(),
                pos as int + x.len() + r.len(),
            )[i] == r[i] by {
                assert(whole[x.len() + i] == (x + r)[x.len() + i]);
            }
        }
        if rest.len() > 0 {
            assert(r[0] == ',');
            assert(t[pos as int + x.len()] == whole[x.len() as int]);
            assert(whole[x.len() as int] == (x + r)[x.len() as int]);
        }
        assert(x == seq![','] + p.0 + seq!['='] + quote_spec(p.1));
        lemma_pairs_one(t, pos, acc, seq![','], p.0, p.1);
        assert forall|i: int| 0 <= i < rest.len() implies key_ok(#[trigger] rest[i].0) && val_ok(rest[i].1) by {
            assert(rest[i] == ps[i + 1]);
        }
        lemma_pairs_list(t, pos + x.len(), acc.push(p), rest);
        assert(acc.push(p) + rest =~= acc + ps);
    }
}

/// A pair's text does not end in white space.
proof fn lemma_pair_text_last(p: (Seq<char>, Seq<char>))
    ensures
        pair_text(p).len() > 0,
        !is_ws(pair_text(p).last()),
{
    let q = quote_spec(p.1);
    let x = pair_text(p);
    if q.len() == 0 {
        assert(x.last() == '=');
    } else {
        assert(x.last() == q.last());
        if exists|i: int| 0 <= i < p.1.len() && (p.1[i] == ',' || p.1[i] == '=' || is_ws(p.1[i])) {
            assert(q.last() == '"');
        } else {
            assert(q == p.1);
            assert(!is_ws(p.1[p.1.len() - 1]));
        }
    }
}

/// The texts of a non-empty list of pairs do not end in white space.
proof fn lemma_pairs_text_last(ps: Seq<(Seq<char>, Seq<char>)>)
    requires
        ps.len() > 0,
    ensures
        pairs_text(ps).len() > 0,
        !is_ws(pairs_text(ps).last()),
    decreases ps.len(),
{
    let x = pair_text(ps[0]);
    let rest = ps.drop_first();
    lemma_pair_text_last(ps[0]);
    if rest.len() == 0 {
        assert(pairs_text(rest) =~= Seq::<char>::empty());
        assert(pairs_text(ps) =~= x);
    } else {
        lemma_pairs_text_last(rest);
        assert(pairs_text(ps).last() == pairs_text(rest).last());
    }
}

/// `dev=midi` followed by the texts of `ps` tokenizes to the `dev`
/// pair, then `ps`.
pub proof fn lemma_tokenize_spec_text(ps: Seq<(Seq<char>, Seq<char>)>)
    requires
        pairs_ok(ps),
    ensures
        tokenize_spec("dev=midi"@ + pairs_text(ps)) == Ok::<Seq<(Seq<char>, Seq<char>)>, SpecErrV>(
            seq![("dev"@, "midi"@)] + ps,
        ),
{
    reveal_strlit("dev=midi");
    reveal_strlit("dev");
    reveal_strlit("midi");
    let t = "dev=midi"@ + pairs_text(ps);
    let head = "dev=midi"@;
    assert(head =~= Seq::<char>::empty() + "dev"@ + seq!['='] + "midi"@);
    assert(quote_spec("midi"@) == "midi"@) by {
        assert(!(exists|i: int| 0 <= i < "midi"@.len() && ("midi"@[i] == ',' || "midi"@[i] == '=' || is_ws("midi"@[i]))));
    }
    assert(!is_ws(t[0]));
    if ps.len() > 0 {
        lemma_pairs_text_last(ps);
        assert(t.last() == pairs_text(ps).last());
    }
    assert(trim(t) == t) by {
        assert(ws_lead(t, 0, t.len()) == 0);
        assert(ws_trail(t, 0, t.len()) == t.len());
        assert(t.subrange(0, t.len() as int) =~= t);
    }
    assert(key_ok("dev"@));
    assert(val_ok("midi"@));
    assert(t.subrange(0, 8) =~= head);
    if ps.len() > 0 {
        assert(t[8] == pairs_text(ps)[0]);
    }
    lemma_pairs_one(t, 0, Seq::empty(), Seq::empty(), "dev"@, "midi"@);
    assert(t.subrange(8, 8 + pairs_text(ps).len() as int) =~= pairs_text(ps));
    lemma_pairs_list(t, 8, seq![("dev"@, "midi"@)], ps);
    assert(Seq::<(Seq<char>, Seq<char>)>::empty().push(("dev"@, "midi"@)) =~= seq![("dev"@, "midi"@)]);
    assert(pairs_from(t, t.len(), seq![("dev"@, "midi"@)] + ps) == Ok::<Seq<(Seq<char>, Seq<char>)>, SpecErrV>(
        seq![("dev"@, "midi"@)] + ps,
    ));
}

/// A character printed values are made of: ASCII letters, digits,
/// `-`, `:` and `.`.
pub open spec fn plain_char(c: char) -> bool {
    ('a' <= c && c <= 'z') || ('A' <= c && c <= 'Z') || ('0' <= c && c <= '9') || c == '-' || c
        == ':' || c == '.'
}

/// A value printed without quotes.
pub open spec fn plain(v: Seq<char>) -> bool {
    forall|i: int| 0 <= i < v.len() ==> plain_char(#[trigger] v[i])
}

/// A plain value is printed as itself and reads back.
pub proof fn lemma_plain(v: Seq<char>)
    requires
        plain(v),
    ensures
        quote_spec(v) == v,
        val_ok(v),
{
    assert(!(exists|i: int| 0 <= i < v.len() && (v[i] == ',' || v[i] == '=' || is_ws(v[i])))) by {
        assert forall|i: int| 0 <= i < v.len() implies !(v[i] == ',' || v[i] == '=' || is_ws(v[i])) by {
            assert(plain_char(v[i]));
        }
    }
}

/// Decimal representations are plain.
pub proof fn lemma_plain_decimal(i: int)
    ensures
        plain(int_decimal(i)),
        i >= 0 ==> plain(nat_decimal(i as nat)),
{
    let n = if i < 0 { (-i) as nat } else { i as nat };
    lemma_nat_decimal_digits(n);
    let d = nat_decimal(n);
    assert forall|k: int| 0 <= k < d.len() implies plain_char(#[trigger] d[k]) by {
        assert(is_digit(d[k]));
    }
    if i < 0 {
        assert forall|k: int| 0 <= k < int_decimal(i).len() implies plain_char(#[trigger] int_decimal(i)[k]) by {
            if k > 0 {
                assert(int_decimal(i)[k] == d[k - 1]);
            }
        }
    }
}

/// The pairs of one optional string field.
pub open spec fn opt_pairs(key: Seq<char>, v: Option<Seq<char>>) -> Seq<(Seq<char>, Seq<char>)> {
    match v {
        Some(x) => seq![(key, x)],
        None => Seq::empty(),
    }
}

/// The pairs of a role: the click keys, the accent note only when it
/// differs from the note.
pub open spec fn role_pairs(m: MidiRole) -> Seq<(Seq<char>, Seq<char>)> {
    match m {
        MidiRole::Click(cfg) => seq![
            ("mode"@, "click"@),
            ("note"@, nat_decimal(cfg.note.0 as nat)),
            ("vel"@, nat_decimal(cfg.vel.0 as nat)),
            ("mch"@, nat_decimal(cfg.ch.0 as nat + 1)),
        ] + accent_pairs(cfg),
        _ => Seq::empty(),
    }
}

/// The pairs of the numeric tail of a spec: swing, offset, delay,
/// snap quantum and bars, each only when it is not the default.
pub open spec fn tail_pairs(s: ChannelSpecV) -> Seq<(Seq<char>, Seq<char>)> {
    (if s.swing.amount == 0 && s.swing.resolution == TBase::T8 {
        Seq::empty()
    } else {
        seq![("swing"@, swing_value(s.swing.resolution, s.swing.amount))]
    }) + (if s.offset_ticks != 0 {
        seq![("offset"@, int_decimal(s.offset_ticks as int))]
    } else {
        Seq::empty()
    }) + (if s.delay != 0 {
        seq![("delay"@, delay_value(s.delay as int))]
    } else {
        Seq::empty()
    }) + match s.snap_to_quantum_micro {
        Some(q) => seq![("snap-quantum-us"@, int_decimal(q as int))],
        None => Seq::empty(),
    } + match s.bars {
        Some(b) => seq![("bars"@, nat_decimal(b.value() as nat))],
        None => Seq::empty(),
    }
}

/// The pairs a spec prints after `dev=midi`.
pub open spec fn spec_pairs(s: ChannelSpecV) -> Seq<(Seq<char>, Seq<char>)> {
    seq![("grid"@, grid_name(s.grid))] + opt_pairs("id"@, s.id) + opt_pairs("out"@, s.out) + role_pairs(
        s.mode,
    ) + tail_pairs(s)
}

/// The text of one pair.
proof fn lemma_single(k: Seq<char>, v: Seq<char>)
    ensures
        pairs_text(seq![(k, v)]) == seq![','] + k + seq!['='] + quote_spec(v),
{
    let e = Seq::<(Seq<char>, Seq<char>)>::empty();
    assert(seq![(k, v)].drop_first() =~= e);
    assert(pairs_text(e) == Seq::<char>::empty());
    assert(seq![(k, v)][0] == (k, v));
    assert(pairs_text(seq![(k, v)]) == pair_text((k, v)) + pairs_text(e));
    assert(pairs_text(seq![(k, v)]) =~= seq![','] + k + seq!['='] + quote_spec(v));
}

/// The text of a singleton whose value is plain.
proof fn lemma_single_plain(k: Seq<char>, v: Seq<char>)
    requires
        plain(v),
    ensures
        pairs_text(seq![(k, v)]) == seq![','] + k + seq!['='] + v,
{
    lemma_single(k, v);
    lemma_plain(v);
}

/// The pairs of a click's accent.
pub open spec fn accent_pairs(cfg: MidiClickConfig) -> Seq<(Seq<char>, Seq<char>)> {
    match cfg.accent {
        Some(a) => seq![
            ("accent-every"@, nat_decimal(a.every.value() as nat)),
            ("accent-vel"@, nat_decimal(a.vel.0 as nat)),
        ] + if a.note != cfg.note {
            seq![("accent-note"@, nat_decimal(a.note.0 as nat))]
        } else {
            Seq::empty()
        },
        None => Seq::empty(),
    }
}

/// The text of a click's accent is the text of its pairs.
#[verifier::spinoff_prover]
proof fn lemma_accent_text(cfg: MidiClickConfig)
    ensures
        match cfg.accent {
            Some(a) => ",accent-every="@ + nat_decimal(a.every.value() as nat) + ",accent-vel="@
                + nat_decimal(a.vel.0 as nat) + if a.note != cfg.note {
                ",accent-note="@ + nat_decimal(a.note.0 as nat)
            } else {
                Seq::empty()
            },
            None => Seq::empty(),
        } == pairs_text(accent_pairs(cfg)),
{
    match cfg.accent {
        Some(a) => {
            reveal_strlit("accent-every");
            reveal_strlit("accent-vel");
            reveal_strlit("accent-note");
            reveal_strlit(",accent-every=");
            reveal_strlit(",accent-vel=");
            reveal_strlit(",accent-note=");
            let e = nat_decimal(a.every.value() as nat);
            let av = nat_decimal(a.vel.0 as nat);
            let an = nat_decimal(a.note.0 as nat);
            lemma_plain_decimal(a.every.value() as int);
            lemma_plain_decimal(a.vel.0 as int);
            lemma_plain_decimal(a.note.0 as int);
            let q1 = ("accent-every"@, e);
            let q2 = ("accent-vel"@, av);
            let q3 = ("accent-note"@, an);
            lemma_single_plain(q1.0, q1.1);
            lemma_single_plain(q2.0, q2.1);
            lemma_single_plain(q3.0, q3.1);
            assert(seq![q1, q2] =~= seq![q1] + seq![q2]);
            lemma_pairs_text_concat(seq![q1], seq![q2]);
            let tail: Seq<(Seq<char>, Seq<char>)> = if a.note != cfg.note {
                seq![q3]
            } else {
                Seq::empty()
            };
            lemma_pairs_text_concat(seq![q1, q2], tail);
            assert(pairs_text(Seq::<(Seq<char>, Seq<char>)>::empty()) =~= Seq::<char>::empty());
            assert(",accent-every="@ =~= seq![','] + q1.0 + seq!['=']);
            assert(",accent-vel="@ =~= seq![','] + q2.0 + seq!['=']);
            assert(",accent-note="@ =~= seq![','] + q3.0 + seq!['=']);
            if a.note != cfg.note {
                assert(pairs_text(accent_pairs(cfg)) =~= ",accent-every="@ + e + ",accent-vel="@ + av
                    + ",accent-note="@ + an);
            } else {
                assert(pairs_text(accent_pairs(cfg)) =~= ",accent-every="@ + e + ",accent-vel="@ + av);
            }
        },
        None => {
            assert(pairs_text(accent_pairs(cfg)) =~= Seq::<char>::empty());
        },
    }
}

/// The text of a role is the text of its pairs.
#[verifier::spinoff_prover]
proof fn lemma_role_text(m: MidiRole)
    ensures
        role_text(m) == pairs_text(role_pairs(m)),
{
    match m {
        MidiRole::Click(cfg) => {
            let n = nat_decimal(cfg.note.0 as nat);
            let v = nat_decimal(cfg.vel.0 as nat);
            let c = nat_decimal(cfg.ch.0 as nat + 1);
            lemma_plain_decimal(cfg.note.0 as int);
            lemma_plain_decimal(cfg.vel.0 as int);
            lemma_plain_decimal(cfg.ch.0 as int + 1);
            reveal_strlit("mode");
            reveal_strlit("click");
            reveal_strlit("note");
            reveal_strlit("vel");
            reveal_strlit("mch");
            reveal_strlit(",mode=click,note=");
            reveal_strlit(",vel=");
            reveal_strlit(",mch=");
            assert(plain("click"@));
            let p1 = ("mode"@, "click"@);
            let p2 = ("note"@, n);
            let p3 = ("vel"@, v);
            let p4 = ("mch"@, c);
            lemma_single_plain(p1.0, p1.1);
            lemma_single_plain(p2.0, p2.1);
            lemma_single_plain(p3.0, p3.1);
            lemma_single_plain(p4.0, p4.1);
            let head = seq![p1, p2, p3, p4];
            assert(head =~= seq![p1] + seq![p2] + seq![p3] + seq![p4]);
            lemma_pairs_text_concat(seq![p1] + seq![p2] + seq![p3], seq![p4]);
            lemma_pairs_text_concat(seq![p1] + seq![p2], seq![p3]);
            lemma_pairs_text_concat(seq![p1], seq![p2]);
            lemma_accent_text(cfg);
            lemma_pairs_text_concat(head, accent_pairs(cfg));
            assert(role_pairs(m) =~= head + accent_pairs(cfg));
            assert(pairs_text(head) =~= ",mode=click,note="@ + n + ",vel="@ + v + ",mch="@ + c);
            assert(pairs_text(role_pairs(m)) =~= role_text(m));
        },
        _ => {
            assert(pairs_text(role_pairs(m)) =~= role_text(m));
        },
    }
}

/// A grid's printed name is plain.
pub proof fn lemma_grid_name_plain(g: Grid)
    ensures
        plain(grid_name(g)),
{
    let d = nat_decimal(crate::notation::grid_num(g));
    lemma_nat_decimal_digits(crate::notation::grid_num(g));
    let s = grid_name(g);
    assert forall|i: int| 0 <= i < s.len() implies plain_char(#[trigger] s[i]) by {
        if i == 0 {
        } else if i < 1 + d.len() {
            assert(s[i] == d[i - 1]);
            assert(is_digit(d[i - 1]));
        } else {
            assert(s[i] == crate::notation::grid_suffix(g)[i - 1 - d.len()]);
        }
    }
}

/// Digits, a point and digits are plain.
pub proof fn lemma_delay_value_plain(us: int)
    requires
        us > 0,
    ensures
        plain(delay_value(us)),
{
    let n = (us / 1000) as nat;
    let r = (us % 1000) as nat;
    lemma_plain_decimal(n as int);
    if r != 0 {
        let v = delay_value(us);
        let d = nat_decimal(n);
        let p = pad3(r);
        assert forall|i: int| 0 <= i < v.len() implies plain_char(#[trigger] v[i]) by {
            if i < d.len() {
                assert(v[i] == d[i]);
            } else if i > d.len() {
                assert(v[i] == p[i - d.len() - 1]);
            }
        }
    }
}

/// A swing value is plain.
pub proof fn lemma_swing_value_plain(res: TBase, amount: i8)
    ensures
        plain(swing_value(res, amount)),
{
    lemma_plain_decimal(amount as int);
    if res != TBase::T8 {
        let t = tbase_name(res);
        let a = int_decimal(amount as int);
        lemma_nat_decimal_digits(tbase_num(res));
        let v = swing_value(res, amount);
        assert forall|i: int| 0 <= i < v.len() implies plain_char(#[trigger] v[i]) by {
            if i == 0 {
            } else if i < t.len() {
                assert(v[i] == nat_decimal(tbase_num(res))[i - 1]);
                assert(is_digit(nat_decimal(tbase_num(res))[i - 1]));
            } else if i > t.len() {
                assert(v[i] == a[i - t.len() - 1]);
            }
        }
    }
}

/// The text of an optional string field is the text of its pairs.
proof fn lemma_opt_text(key: Seq<char>, lit: Seq<char>, v: Option<Seq<char>>)
    requires
        lit == seq![','] + key + seq!['='],
    ensures
        opt_field(lit, v) == pairs_text(opt_pairs(key, v)),
{
    match v {
        Some(x) => {
            lemma_single(key, x);
        },
        None => {
            assert(pairs_text(Seq::<(Seq<char>, Seq<char>)>::empty()) =~= Seq::<char>::empty());
        },
    }
}

/// The printed numeric tail of a spec.
pub open spec fn tail_text(s: ChannelSpecV) -> Seq<char> {
    swing_text(s.swing.resolution, s.swing.amount) + (if s.offset_ticks != 0 {
        ",offset="@ + int_decimal(s.offset_ticks as int)
    } else {
        Seq::empty()
    }) + delay_text(s.delay as int) + match s.snap_to_quantum_micro {
        Some(q) => ",snap-quantum-us="@ + int_decimal(q as int),
        None => Seq::empty(),
    } + match s.bars {
        Some(b) => ",bars="@ + nat_decimal(b.value() as nat),
        None => Seq::empty(),
    }
}

/// The printed form splits into its head, its optional strings, its
/// role and its numeric tail.
proof fn lemma_spec_text_parts(s: ChannelSpecV)
    ensures
        spec_text(s) == "dev=midi,grid="@ + grid_name(s.grid) + opt_field(",id="@, s.id) + opt_field(
            ",out="@,
            s.out,
        ) + role_text(s.mode) + tail_text(s),
{
    let x = "dev=midi,grid="@ + grid_name(s.grid) + opt_field(",id="@, s.id) + opt_field(",out="@, s.out)
        + role_text(s.mode);
    let sw = swing_text(s.swing.resolution, s.swing.amount);
    let of = if s.offset_ticks != 0 {
        ",offset="@ + int_decimal(s.offset_ticks as int)
    } else {
        Seq::empty()
    };
    let de = delay_text(s.delay as int);
    let sn = match s.snap_to_quantum_micro {
        Some(q) => ",snap-quantum-us="@ + int_decimal(q as int),
        None => Seq::empty(),
    };
    let ba = match s.bars {
        Some(b) => ",bars="@ + nat_decimal(b.value() as nat),
        None => Seq::empty(),
    };
    assert(spec_text(s) == x + sw + of + de + sn + ba);
    assert(tail_text(s) == sw + of + de + sn + ba);
    assert(x + sw + of + de + sn + ba =~= x + (sw + of + de + sn + ba));
}

/// The text of the numeric tail is the text of its pairs.
proof fn lemma_tail_text(s: ChannelSpecV)
    requires
        s.delay >= 0,
    ensures
        tail_text(s) == pairs_text(tail_pairs(s)),
{
    let e = Seq::<(Seq<char>, Seq<char>)>::empty();
    assert(pairs_text(e) =~= Seq::<char>::empty());
    reveal_strlit("swing");
    reveal_strlit(",swing=");
    reveal_strlit("offset");
    reveal_strlit(",offset=");
    reveal_strlit("delay");
    reveal_strlit(",delay=");
    reveal_strlit("snap-quantum-us");
    reveal_strlit(",snap-quantum-us=");
    reveal_strlit("bars");
    reveal_strlit(",bars=");
    let sw: Seq<(Seq<char>, Seq<char>)> = if s.swing.amount == 0 && s.swing.resolution == TBase::T8 {
        e
    } else {
        seq![("swing"@, swing_value(s.swing.resolution, s.swing.amount))]
    };
    let of: Seq<(Seq<char>, Seq<char>)> = if s.offset_ticks != 0 {
        seq![("offset"@, int_decimal(s.offset_ticks as int))]
    } else {
        e
    };
    let de: Seq<(Seq<char>, Seq<char>)> = if s.delay != 0 {
        seq![("delay"@, delay_value(s.delay as int))]
    } else {
        e
    };
    let sn: Seq<(Seq<char>, Seq<char>)> = match s.snap_to_quantum_micro {
        Some(q) => seq![("snap-quantum-us"@, int_decimal(q as int))],
        None => e,
    };
    let ba: Seq<(Seq<char>, Seq<char>)> = match s.bars {
        Some(b) => seq![("bars"@, nat_decimal(b.value() as nat))],
        None => e,
    };
    lemma_swing_value_plain(s.swing.resolution, s.swing.amount);
    lemma_single_plain("swing"@, swing_value(s.swing.resolution, s.swing.amount));
    lemma_plain_decimal(s.offset_ticks as int);
    lemma_single_plain("offset"@, int_decimal(s.offset_ticks as int));
    if s.delay != 0 {
        lemma_delay_value_plain(s.delay as int);
        lemma_single_plain("delay"@, delay_value(s.delay as int));
        lemma_delay_round_trip(s.delay as int);
    }
    match s.snap_to_quantum_micro {
        Some(q) => {
            lemma_plain_decimal(q as int);
            lemma_single_plain("snap-quantum-us"@, int_decimal(q as int));
        },
        None => {},
    }
    match s.bars {
        Some(b) => {
            lemma_plain_decimal(b.value() as int);
            lemma_single_plain("bars"@, nat_decimal(b.value() as nat));
        },
        None => {},
    }
    lemma_pairs_text_concat(sw + of + de + sn, ba);
    lemma_pairs_text_concat(sw + of + de, sn);
    lemma_pairs_text_concat(sw + of, de);
    lemma_pairs_text_concat(sw, of);
    assert(tail_pairs(s) == sw + of + de + sn + ba);
    assert(swing_text(s.swing.resolution, s.swing.amount) == pairs_text(sw)) by {
        if !(s.swing.amount == 0 && s.swing.resolution == TBase::T8) {
            assert(swing_text(s.swing.resolution, s.swing.amount) =~= seq![','] + "swing"@ + seq!['=']
                + swing_value(s.swing.resolution, s.swing.amount));
        }
    }
    assert((if s.offset_ticks != 0 {
        ",offset="@ + int_decimal(s.offset_ticks as int)
    } else {
        Seq::empty()
    }) == pairs_text(of)) by {
        if s.offset_ticks != 0 {
            assert(",offset="@ + int_decimal(s.offset_ticks as int) =~= seq![','] + "offset"@ + seq!['=']
                + int_decimal(s.offset_ticks as int));
        }
    }
    assert(delay_text(s.delay as int) == pairs_text(de)) by {
        if s.delay != 0 {
            assert(",delay="@ + delay_value(s.delay as int) =~= seq![','] + "delay"@ + seq!['='] + delay_value(
                s.delay as int,
            ));
        }
    }
    assert(match s.snap_to_quantum_micro {
        Some(q) => ",snap-quantum-us="@ + int_decimal(q as int),
        None => Seq::empty(),
    } == pairs_text(sn)) by {
        match s.snap_to_quantum_micro {
            Some(q) => {
                assert(",snap-quantum-us="@ + int_decimal(q as int) =~= seq![','] + "snap-quantum-us"@
                    + seq!['='] + int_decimal(q as int));
            },
            None => {},
        }
    }
    assert(match s.bars {
        Some(b) => ",bars="@ + nat_decimal(b.value() as nat),
        None => Seq::empty(),
    } == pairs_text(ba)) by {
        match s.bars {
            Some(b) => {
                assert(",bars="@ + nat_decimal(b.value() as nat) =~= seq![','] + "bars"@ + seq!['=']
                    + nat_decimal(b.value() as nat));
            },
            None => {},
        }
    }
}

/// The printed form of a spec is `dev=midi` and the texts of its
/// pairs.
#[verifier::spinoff_prover]
#[verifier::rlimit(40)]
pub proof fn lemma_spec_text(s: ChannelSpecV)
    requires
        s.delay >= 0,
    ensures
        spec_text(s) == "dev=midi"@ + pairs_text(spec_pairs(s)),
{
    let g = seq![("grid"@, grid_name(s.grid))];
    let i = opt_pairs("id"@, s.id);
    let o = opt_pairs("out"@, s.out);
    let r = role_pairs(s.mode);
    let t = tail_pairs(s);
    let pg = pairs_text(g);
    let pi = pairs_text(i);
    let po = pairs_text(o);
    let pr = pairs_text(r);
    let pt = pairs_text(t);
    let a = "dev=midi,grid="@ + grid_name(s.grid);
    let b = opt_field(",id="@, s.id);
    let c = opt_field(",out="@, s.out);
    let d = role_text(s.mode);
    let e = tail_text(s);
    lemma_spec_text_parts(s);
    assert(a == "dev=midi"@ + pg) by {
        reveal_strlit("dev=midi,grid=");
        reveal_strlit("dev=midi");
        reveal_strlit("grid");
        lemma_grid_name_plain(s.grid);
        lemma_single_plain("grid"@, grid_name(s.grid));
        assert(a =~= "dev=midi"@ + pg);
    }
    assert(b == pi) by {
        reveal_strlit("id");
        reveal_strlit(",id=");
        assert(",id="@ =~= seq![','] + "id"@ + seq!['=']);
        lemma_opt_text("id"@, ",id="@, s.id);
    }
    assert(c == po) by {
        reveal_strlit("out");
        reveal_strlit(",out=");
        assert(",out="@ =~= seq![','] + "out"@ + seq!['=']);
        lemma_opt_text("out"@, ",out="@, s.out);
    }
    assert(d == pr) by {
        lemma_role_text(s.mode);
    }
    assert(e == pt) by {
        lemma_tail_text(s);
    }
    assert(pairs_text(spec_pairs(s)) == pg + pi + po + pr + pt) by {
        lemma_pairs_text_concat(g + i + o + r, t);
        lemma_pairs_text_concat(g + i + o, r);
        lemma_pairs_text_concat(g + i, o);
        lemma_pairs_text_concat(g, i);
    }
    assert("dev=midi"@ + pg + pi + po + pr + pt =~= "dev=midi"@ + (pg + pi + po + pr + pt));
}

} // verus!
