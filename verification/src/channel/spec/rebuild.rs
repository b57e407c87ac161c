//! Applying the pairs a spec prints rebuilds the spec: each printed
//! key sets exactly its own field of the accumulator, and finishing
//! that accumulator gives the spec back.

use vstd::prelude::*;
use crate::channel::role::{MidiClickAccent, MidiClickConfig, MidiRole};
use crate::channel::spec::error::SpecErrV;
use crate::channel::spec::parser::{
    acc_init, apply_all, apply_pair_spec, channel_spec_of, finish_spec, grid_text, int_spec,
    mch_spec, note_spec, positive_spec, role_spec, vel_spec, AccV,
};
use crate::channel::spec::round_trip::{
    lemma_spec_text, lemma_tokenize_spec_text,
    val_ok, key_ok, pairs_ok, plain, plain_char, lemma_plain, lemma_plain_decimal, lemma_grid_name_plain,
    lemma_delay_value_plain, lemma_swing_value_plain,
    accent_pairs, delay_value, lemma_delay_round_trip, lemma_parse_int_decimal,
    lemma_swing_round_trip, opt_pairs, role_pairs, spec_pairs, swing_value, tail_pairs,
};
use crate::channel::spec::types::ChannelSpecV;
use crate::channel::spec::display::spec_text;
use crate::channel::spec::tokenize::is_ws;
use crate::channel::spec::values::{delay_spec, swing_spec};
use crate::dsl::ast::{ExprV, Span};
use crate::dsl::display::display_v;
use crate::dsl::error::DslErrorV;
use crate::dsl::round_trip::lemma_display_parse_round_trip;
use crate::midi::{U4, U7};
use crate::nonzero::{
    lemma_nonzero_u16_value_injective, lemma_nonzero_u32_value_injective, lemma_nz_value, nz16, nz32,
    NonZeroU16,
};
use crate::notation::grid_name;
use crate::swing::SwingConfig;
use crate::text::{digit_char, int_decimal, lemma_parse_int_nat_decimal, nat_decimal, parse_int_spec, IntErrorKind};
use crate::time::{Grid, TBase};

verus! {

/// Applying from index `i` is applying the suffix from its start.
proof fn lemma_apply_all_skip(a: AccV, p: Seq<(Seq<char>, Seq<char>)>, i: nat)
    requires
        i <= p.len(),
    ensures
        apply_all(a, p, i) == apply_all(a, p.subrange(i as int, p.len() as int), 0),
    decreases p.len() - i,
{
    let q = p.subrange(i as int, p.len() as int);
    if i < p.len() {
        assert(q[0] == p[i as int]);
        match apply_pair_spec(a, p[i as int].0, p[i as int].1) {
            Ok(b) => {
                lemma_apply_all_skip(b, p, i + 1);
                lemma_apply_all_skip(b, q, 1);
                assert(q.subrange(1, q.len() as int) =~= p.subrange(i + 1int, p.len() as int));
            },
            Err(_) => {},
        }
    }
}

/// Applying `p + q` is applying `p`, then `q` to what came out.
pub proof fn lemma_apply_all_concat(a: AccV, p: Seq<(Seq<char>, Seq<char>)>, q: Seq<(Seq<char>, Seq<char>)>)
    ensures
        apply_all(a, p + q, 0) == match apply_all(a, p, 0) {
            Ok(b) => apply_all(b, q, 0),
            Err(e) => Err(e),
        },
    decreases p.len(),
{
    if p.len() == 0 {
        assert(p + q =~= q);
    } else {
        let pq = p + q;
        assert(pq[0] == p[0]);
        match apply_pair_spec(a, p[0].0, p[0].1) {
            Ok(b) => {
                lemma_apply_all_skip(b, pq, 1);
                lemma_apply_all_skip(b, p, 1);
                assert(pq.subrange(1, pq.len() as int) =~= p.drop_first() + q);
                assert(p.subrange(1, p.len() as int) =~= p.drop_first());
                lemma_apply_all_concat(b, p.drop_first(), q);
            },
            Err(_) => {},
        }
    }
}

/// Applying one pair.
proof fn lemma_apply_one(a: AccV, k: Seq<char>, v: Seq<char>)
    ensures
        apply_all(a, seq![(k, v)], 0) == apply_pair_spec(a, k, v),
{
    let p = seq![(k, v)];
    match apply_pair_spec(a, k, v) {
        Ok(b) => {
            assert(apply_all(b, p, 1) == Ok::<AccV, SpecErrV>(b));
        },
        Err(_) => {},
    }
}

/// Applying nothing.
proof fn lemma_apply_none(a: AccV)
    ensures
        apply_all(a, Seq::empty(), 0) == Ok::<AccV, SpecErrV>(a),
{
}


/// The keys and keywords of the spec language, letter by letter.
proof fn lemma_keys()
    ensures
        "id"@ == seq!['i', 'd'],
        "dev"@ == seq!['d', 'e', 'v'],
        "out"@ == seq!['o', 'u', 't'],
        "grid"@ == seq!['g', 'r', 'i', 'd'],
        "mode"@ == seq!['m', 'o', 'd', 'e'],
        "note"@ == seq!['n', 'o', 't', 'e'],
        "vel"@ == seq!['v', 'e', 'l'],
        "mch"@ == seq!['m', 'c', 'h'],
        "accent-every"@ == seq!['a', 'c', 'c', 'e', 'n', 't', '-', 'e', 'v', 'e', 'r', 'y'],
        "accent-note"@ == seq!['a', 'c', 'c', 'e', 'n', 't', '-', 'n', 'o', 't', 'e'],
        "accent-vel"@ == seq!['a', 'c', 'c', 'e', 'n', 't', '-', 'v', 'e', 'l'],
        "bars"@ == seq!['b', 'a', 'r', 's'],
        "swing"@ == seq!['s', 'w', 'i', 'n', 'g'],
        "offset"@ == seq!['o', 'f', 'f', 's', 'e', 't'],
        "delay"@ == seq!['d', 'e', 'l', 'a', 'y'],
        "snap-quantum-us"@ == seq!['s', 'n', 'a', 'p', '-', 'q', 'u', 'a', 'n', 't', 'u', 'm', '-', 'u', 's'],
        "midi"@ == seq!['m', 'i', 'd', 'i'],
        "audio"@ == seq!['a', 'u', 'd', 'i', 'o'],
        "clock"@ == seq!['c', 'l', 'o', 'c', 'k'],
        "click"@ == seq!['c', 'l', 'i', 'c', 'k'],
{
    reveal_strlit("id");
    reveal_strlit("dev");
    reveal_strlit("out");
    reveal_strlit("grid");
    reveal_strlit("mode");
    reveal_strlit("note");
    reveal_strlit("vel");
    reveal_strlit("mch");
    reveal_strlit("accent-every");
    reveal_strlit("accent-note");
    reveal_strlit("accent-vel");
    reveal_strlit("bars");
    reveal_strlit("swing");
    reveal_strlit("offset");
    reveal_strlit("delay");
    reveal_strlit("snap-quantum-us");
    reveal_strlit("midi");
    reveal_strlit("audio");
    reveal_strlit("clock");
    reveal_strlit("click");
    assert("id"@ =~= seq!['i', 'd']);
    assert("dev"@ =~= seq!['d', 'e', 'v']);
    assert("out"@ =~= seq!['o', 'u', 't']);
    assert("grid"@ =~= seq!['g', 'r', 'i', 'd']);
    assert("mode"@ =~= seq!['m', 'o', 'd', 'e']);
    assert("note"@ =~= seq!['n', 'o', 't', 'e']);
    assert("vel"@ =~= seq!['v', 'e', 'l']);
    assert("mch"@ =~= seq!['m', 'c', 'h']);
    assert("accent-every"@ =~= seq!['a', 'c', 'c', 'e', 'n', 't', '-', 'e', 'v', 'e', 'r', 'y']);
    assert("accent-note"@ =~= seq!['a', 'c', 'c', 'e', 'n', 't', '-', 'n', 'o', 't', 'e']);
    assert("accent-vel"@ =~= seq!['a', 'c', 'c', 'e', 'n', 't', '-', 'v', 'e', 'l']);
    assert("bars"@ =~= seq!['b', 'a', 'r', 's']);
    assert("swing"@ =~= seq!['s', 'w', 'i', 'n', 'g']);
    assert("offset"@ =~= seq!['o', 'f', 'f', 's', 'e', 't']);
    assert("delay"@ =~= seq!['d', 'e', 'l', 'a', 'y']);
    assert("snap-quantum-us"@ =~= seq!['s', 'n', 'a', 'p', '-', 'q', 'u', 'a', 'n', 't', 'u', 'm', '-', 'u', 's']);
    assert("midi"@ =~= seq!['m', 'i', 'd', 'i']);
    assert("audio"@ =~= seq!['a', 'u', 'd', 'i', 'o']);
    assert("clock"@ =~= seq!['c', 'l', 'o', 'c', 'k']);
    assert("click"@ =~= seq!['c', 'l', 'i', 'c', 'k']);
}


/// `dev=midi` marks the device as seen.
proof fn lemma_step_dev(a: AccV)
    ensures
        apply_pair_spec(a, "dev"@, "midi"@) == Ok::<AccV, SpecErrV>(AccV { dev_seen: true, ..a }),
{
    lemma_keys();
}

/// `grid=` records the grid text.
proof fn lemma_step_grid(a: AccV, v: Seq<char>)
    ensures
        apply_pair_spec(a, "grid"@, v) == Ok::<AccV, SpecErrV>(AccV { grid_str: Some(v), ..a }),
{
    lemma_keys();
}

/// `id=` records the identifier.
proof fn lemma_step_id(a: AccV, v: Seq<char>)
    ensures
        apply_pair_spec(a, "id"@, v) == Ok::<AccV, SpecErrV>(AccV { id: Some(v), ..a }),
{
    lemma_keys();
}

/// `out=` records the routing target.
proof fn lemma_step_out(a: AccV, v: Seq<char>)
    ensures
        apply_pair_spec(a, "out"@, v) == Ok::<AccV, SpecErrV>(AccV { out: Some(v), ..a }),
{
    lemma_keys();
}

/// `mode=click` selects the click role.
proof fn lemma_step_mode_click(a: AccV)
    ensures
        apply_pair_spec(a, "mode"@, "click"@) == Ok::<AccV, SpecErrV>(AccV { mode_kw: 2, ..a }),
{
    lemma_keys();
}


/// A printed note number reads back.
proof fn lemma_note_value(key: Seq<char>, n: U7)
    requires
        n.0 <= 127,
    ensures
        note_spec(key, nat_decimal(n.0 as nat)) == Ok::<U7, SpecErrV>(n),
{
    lemma_parse_int_nat_decimal(n.0 as nat, 0, 255);
}

/// A printed velocity reads back.
proof fn lemma_vel_value(key: Seq<char>, v: U7)
    requires
        1 <= v.0 <= 127,
    ensures
        vel_spec(key, nat_decimal(v.0 as nat)) == Ok::<U7, SpecErrV>(v),
{
    lemma_parse_int_nat_decimal(v.0 as nat, 0, 255);
}

/// `note=` records the note.
proof fn lemma_step_note(a: AccV, n: U7)
    requires
        n.0 <= 127,
    ensures
        apply_pair_spec(a, "note"@, nat_decimal(n.0 as nat)) == Ok::<AccV, SpecErrV>(
            AccV { note: Some(n), ..a },
        ),
{
    lemma_keys();
    lemma_note_value("note"@, n);
}

/// `vel=` records the velocity.
proof fn lemma_step_vel(a: AccV, v: U7)
    requires
        1 <= v.0 <= 127,
    ensures
        apply_pair_spec(a, "vel"@, nat_decimal(v.0 as nat)) == Ok::<AccV, SpecErrV>(
            AccV { vel: Some(v), ..a },
        ),
{
    lemma_keys();
    lemma_vel_value("vel"@, v);
}

/// `mch=` records the zero-based channel.
proof fn lemma_step_mch(a: AccV, c: U4)
    requires
        c.0 <= 15,
    ensures
        apply_pair_spec(a, "mch"@, nat_decimal(c.0 as nat + 1)) == Ok::<AccV, SpecErrV>(
            AccV { mch: Some(c), ..a },
        ),
{
    lemma_keys();
    lemma_parse_int_nat_decimal(c.0 as nat + 1, 0, 255);
}

/// `accent-every=` records the accent period.
proof fn lemma_step_accent_every(a: AccV, e: u32)
    requires
        e != 0,
    ensures
        apply_pair_spec(a, "accent-every"@, nat_decimal(e as nat)) == Ok::<AccV, SpecErrV>(
            AccV { accent_every: Some(e), ..a },
        ),
{
    lemma_keys();
    lemma_parse_int_nat_decimal(e as nat, 0, u32::MAX as int);
}

/// `accent-note=` records the accent note.
proof fn lemma_step_accent_note(a: AccV, n: U7)
    requires
        n.0 <= 127,
    ensures
        apply_pair_spec(a, "accent-note"@, nat_decimal(n.0 as nat)) == Ok::<AccV, SpecErrV>(
            AccV { accent_note: Some(n), ..a },
        ),
{
    lemma_keys();
    lemma_note_value("accent-note"@, n);
}

/// `accent-vel=` records the accent velocity.
proof fn lemma_step_accent_vel(a: AccV, v: U7)
    requires
        1 <= v.0 <= 127,
    ensures
        apply_pair_spec(a, "accent-vel"@, nat_decimal(v.0 as nat)) == Ok::<AccV, SpecErrV>(
            AccV { accent_vel: Some(v), ..a },
        ),
{
    lemma_keys();
    lemma_vel_value("accent-vel"@, v);
}

/// `bars=` records the bar filter.
proof fn lemma_step_bars(a: AccV, b: u16)
    requires
        b != 0,
    ensures
        apply_pair_spec(a, "bars"@, nat_decimal(b as nat)) == Ok::<AccV, SpecErrV>(
            AccV { bars: Some(b), ..a },
        ),
{
    lemma_keys();
    lemma_parse_int_nat_decimal(b as nat, 0, u16::MAX as int);
}

/// `swing=` records the swing.
proof fn lemma_step_swing(a: AccV, res: TBase, amount: i8)
    ensures
        apply_pair_spec(a, "swing"@, swing_value(res, amount)) == Ok::<AccV, SpecErrV>(
            AccV { swing: SwingConfig { resolution: res, amount }, ..a },
        ),
{
    lemma_keys();
    lemma_swing_round_trip(res, amount);
}

/// `offset=` records the offset.
proof fn lemma_step_offset(a: AccV, o: i32)
    ensures
        apply_pair_spec(a, "offset"@, int_decimal(o as int)) == Ok::<AccV, SpecErrV>(
            AccV { offset: o, ..a },
        ),
{
    lemma_keys();
    lemma_parse_int_decimal(o as int, i32::MIN as int, i32::MAX as int);
}

/// `delay=` records a positive delay.
proof fn lemma_step_delay(a: AccV, us: i64)
    requires
        us > 0,
    ensures
        apply_pair_spec(a, "delay"@, delay_value(us as int)) == Ok::<AccV, SpecErrV>(
            AccV { delay: us, ..a },
        ),
{
    lemma_keys();
    lemma_delay_round_trip(us as int);
}

/// `snap-quantum-us=` records the quantum.
proof fn lemma_step_snap(a: AccV, q: i64)
    ensures
        apply_pair_spec(a, "snap-quantum-us"@, int_decimal(q as int)) == Ok::<AccV, SpecErrV>(
            AccV { snap: Some(q), ..a },
        ),
{
    lemma_keys();
    lemma_parse_int_decimal(q as int, i64::MIN as int, i64::MAX as int);
}


/// Applying a pair, then the rest.
proof fn lemma_apply_cons(a: AccV, k: Seq<char>, v: Seq<char>, q: Seq<(Seq<char>, Seq<char>)>)
    ensures
        apply_all(a, seq![(k, v)] + q, 0) == match apply_pair_spec(a, k, v) {
            Ok(b) => apply_all(b, q, 0),
            Err(e) => Err(e),
        },
{
    lemma_apply_all_concat(a, seq![(k, v)], q);
    lemma_apply_one(a, k, v);
}

/// A role this library prints and reads back: clock, or a click whose
/// numbers are in their MIDI ranges.
pub open spec fn role_ok(m: MidiRole) -> bool {
    match m {
        MidiRole::Clock => true,
        MidiRole::Click(cfg) => {
            &&& cfg.note.0 <= 127
            &&& 1 <= cfg.vel.0 <= 127
            &&& cfg.ch.0 <= 15
            &&& match cfg.accent {
                Some(x) => x.every.value() != 0 && x.note.0 <= 127 && 1 <= x.vel.0 <= 127,
                None => true,
            }
        },
        MidiRole::Cc(_) => false,
    }
}

/// What the role keys leave in an accumulator.
pub open spec fn role_acc(a: AccV, m: MidiRole) -> AccV {
    match m {
        MidiRole::Click(cfg) => AccV {
            mode_kw: 2,
            note: Some(cfg.note),
            vel: Some(cfg.vel),
            mch: Some(cfg.ch),
            accent_every: match cfg.accent {
                Some(x) => Some(x.every.value()),
                None => None,
            },
            accent_vel: match cfg.accent {
                Some(x) => Some(x.vel),
                None => None,
            },
            accent_note: match cfg.accent {
                Some(x) => if x.note != cfg.note {
                    Some(x.note)
                } else {
                    None
                },
                None => None,
            },
            ..a
        },
        _ => a,
    }
}

/// Applying the accent keys of a click.
proof fn lemma_apply_accent(a: AccV, cfg: MidiClickConfig)
    requires
        match cfg.accent {
            Some(x) => x.every.value() != 0 && x.note.0 <= 127 && 1 <= x.vel.0 <= 127,
            None => true,
        },
    ensures
        apply_all(a, accent_pairs(cfg), 0) == Ok::<AccV, SpecErrV>(
            match cfg.accent {
                Some(x) => AccV {
                    accent_every: Some(x.every.value()),
                    accent_vel: Some(x.vel),
                    accent_note: if x.note != cfg.note {
                        Some(x.note)
                    } else {
                        a.accent_note
                    },
                    ..a
                },
                None => a,
            },
        ),
{
    match cfg.accent {
        Some(x) => {
            let e = Seq::<(Seq<char>, Seq<char>)>::empty();
            let k1 = "accent-every"@;
            let v1 = nat_decimal(x.every.value() as nat);
            let k2 = "accent-vel"@;
            let v2 = nat_decimal(x.vel.0 as nat);
            let tail: Seq<(Seq<char>, Seq<char>)> = if x.note != cfg.note {
                seq![("accent-note"@, nat_decimal(x.note.0 as nat))]
            } else {
                e
            };
            assert(accent_pairs(cfg) =~= seq![(k1, v1)] + (seq![(k2, v2)] + tail));
            let b1 = AccV { accent_every: Some(x.every.value()), ..a };
            let b2 = AccV { accent_vel: Some(x.vel), ..b1 };
            lemma_step_accent_every(a, x.every.value());
            lemma_apply_cons(a, k1, v1, seq![(k2, v2)] + tail);
            lemma_step_accent_vel(b1, x.vel);
            lemma_apply_cons(b1, k2, v2, tail);
            if x.note != cfg.note {
                lemma_step_accent_note(b2, x.note);
                lemma_apply_one(b2, "accent-note"@, nat_decimal(x.note.0 as nat));
            } else {
                lemma_apply_none(b2);
            }
        },
        None => {
            lemma_apply_none(a);
        },
    }
}

/// Applying the role keys of a spec sets the role fields.
pub proof fn lemma_apply_role(a: AccV, m: MidiRole)
    requires
        role_ok(m),
        a.accent_every is None,
        a.accent_note is None,
        a.accent_vel is None,
    ensures
        apply_all(a, role_pairs(m), 0) == Ok::<AccV, SpecErrV>(role_acc(a, m)),
{
    match m {
        MidiRole::Click(cfg) => {
            let k1 = "mode"@;
            let v1 = "click"@;
            let k2 = "note"@;
            let v2 = nat_decimal(cfg.note.0 as nat);
            let k3 = "vel"@;
            let v3 = nat_decimal(cfg.vel.0 as nat);
            let k4 = "mch"@;
            let v4 = nat_decimal(cfg.ch.0 as nat + 1);
            let ac = accent_pairs(cfg);
            assert(role_pairs(m) =~= seq![(k1, v1)] + (seq![(k2, v2)] + (seq![(k3, v3)] + (seq![(k4, v4)]
                + ac))));
            let b1 = AccV { mode_kw: 2, ..a };
            let b2 = AccV { note: Some(cfg.note), ..b1 };
            let b3 = AccV { vel: Some(cfg.vel), ..b2 };
            let b4 = AccV { mch: Some(cfg.ch), ..b3 };
            lemma_step_mode_click(a);
            lemma_apply_cons(a, k1, v1, seq![(k2, v2)] + (seq![(k3, v3)] + (seq![(k4, v4)] + ac)));
            lemma_step_note(b1, cfg.note);
            lemma_apply_cons(b1, k2, v2, seq![(k3, v3)] + (seq![(k4, v4)] + ac));
            lemma_step_vel(b2, cfg.vel);
            lemma_apply_cons(b2, k3, v3, seq![(k4, v4)] + ac);
            lemma_step_mch(b3, cfg.ch);
            lemma_apply_cons(b3, k4, v4, ac);
            lemma_apply_accent(b4, cfg);
            assert(apply_all(b3, seq![(k4, v4)] + ac, 0) == apply_all(b4, ac, 0));
            assert(apply_all(b2, seq![(k3, v3)] + (seq![(k4, v4)] + ac), 0) == apply_all(b4, ac, 0));
            assert(apply_all(b1, seq![(k2, v2)] + (seq![(k3, v3)] + (seq![(k4, v4)] + ac)), 0) == apply_all(b4, ac, 0));
            assert(apply_all(a, role_pairs(m), 0) == apply_all(b4, ac, 0));
            match cfg.accent {
                Some(x) => {
                    assert(role_acc(a, m) == AccV {
                        accent_every: Some(x.every.value()),
                        accent_vel: Some(x.vel),
                        accent_note: if x.note != cfg.note {
                            Some(x.note)
                        } else {
                            b4.accent_note
                        },
                        ..b4
                    });
                },
                None => {
                    assert(role_acc(a, m) == b4);
                },
            }
        },
        _ => {
            lemma_apply_none(a);
        },
    }
}

/// What the numeric keys leave in an accumulator.
pub open spec fn tail_acc(a: AccV, s: ChannelSpecV) -> AccV {
    AccV {
        swing: s.swing,
        offset: s.offset_ticks,
        delay: s.delay,
        snap: s.snap_to_quantum_micro,
        bars: match s.bars {
            Some(b) => Some(b.value()),
            None => None,
        },
        ..a
    }
}

/// Applying the numeric keys of a spec to an accumulator that holds
/// their defaults sets them.
pub proof fn lemma_apply_tail(a: AccV, s: ChannelSpecV)
    requires
        a.swing == (SwingConfig { resolution: TBase::T8, amount: 0 }),
        a.offset == 0,
        a.delay == 0,
        a.snap is None,
        a.bars is None,
        s.delay >= 0,
        s.bars matches Some(b) ==> b.value() != 0,
    ensures
        apply_all(a, tail_pairs(s), 0) == Ok::<AccV, SpecErrV>(tail_acc(a, s)),
{
    let e = Seq::<(Seq<char>, Seq<char>)>::empty();
    let sw: Seq<(Seq<char>, Seq<char>)> = if s.swing.amount == 0 && s.swing.resolution == TBase::T8 {
        e
    } else {
        seq![("swing"@, swing_value(s.swing.resolution, s.swing.amount))]
    };
    let of: Seq<(Seq<char>, Seq<char>)> = if s.offset_ticks != 0 {
        seq![("offset"@, int_decimal(s.offset_ticks as int))]
    } else {
        e
    };
    let de: Seq<(Seq<char>, Seq<char>)> = if s.delay != 0 {
        seq![("delay"@, delay_value(s.delay as int))]
    } else {
        e
    };
    let sn: Seq<(Seq<char>, Seq<char>)> = match s.snap_to_quantum_micro {
        Some(q) => seq![("snap-quantum-us"@, int_decimal(q as int))],
        None => e,
    };
    let ba: Seq<(Seq<char>, Seq<char>)> = match s.bars {
        Some(b) => seq![("bars"@, nat_decimal(b.value() as nat))],
        None => e,
    };
    assert(tail_pairs(s) == sw + of + de + sn + ba);
    let b1 = AccV { swing: s.swing, ..a };
    let b2 = AccV { offset: s.offset_ticks, ..b1 };
    let b3 = AccV { delay: s.delay, ..b2 };
    let b4 = AccV { snap: s.snap_to_quantum_micro, ..b3 };
    assert(apply_all(a, sw, 0) == Ok::<AccV, SpecErrV>(b1)) by {
        if s.swing.amount == 0 && s.swing.resolution == TBase::T8 {
            lemma_apply_none(a);
        } else {
            lemma_step_swing(a, s.swing.resolution, s.swing.amount);
            lemma_apply_one(a, "swing"@, swing_value(s.swing.resolution, s.swing.amount));
        }
    }
    assert(apply_all(b1, of, 0) == Ok::<AccV, SpecErrV>(b2)) by {
        if s.offset_ticks != 0 {
            lemma_step_offset(b1, s.offset_ticks);
            lemma_apply_one(b1, "offset"@, int_decimal(s.offset_ticks as int));
        } else {
            lemma_apply_none(b1);
        }
    }
    assert(apply_all(b2, de, 0) == Ok::<AccV, SpecErrV>(b3)) by {
        if s.delay != 0 {
            lemma_step_delay(b2, s.delay);
            lemma_apply_one(b2, "delay"@, delay_value(s.delay as int));
        } else {
            lemma_apply_none(b2);
        }
    }
    assert(apply_all(b3, sn, 0) == Ok::<AccV, SpecErrV>(b4)) by {
        match s.snap_to_quantum_micro {
            Some(q) => {
                lemma_step_snap(b3, q);
                lemma_apply_one(b3, "snap-quantum-us"@, int_decimal(q as int));
            },
            None => {
                lemma_apply_none(b3);
            },
        }
    }
    assert(apply_all(b4, ba, 0) == Ok::<AccV, SpecErrV>(tail_acc(a, s))) by {
        match s.bars {
            Some(b) => {
                lemma_step_bars(b4, b.value());
                lemma_apply_one(b4, "bars"@, nat_decimal(b.value() as nat));
            },
            None => {
                lemma_apply_none(b4);
            },
        }
    }
    lemma_apply_all_concat(a, sw + of + de + sn, ba);
    lemma_apply_all_concat(a, sw + of + de, sn);
    lemma_apply_all_concat(a, sw + of, de);
    lemma_apply_all_concat(a, sw, of);
}


/// A spec whose printed form parses back to it: a non-negative delay,
/// identifiers and routing targets without double quotes, a clock or
/// click role in its MIDI ranges, and a non-zero bar filter.
pub open spec fn spec_ok(s: ChannelSpecV) -> bool {
    &&& s.delay >= 0
    &&& s.id matches Some(x) ==> val_ok(x)
    &&& s.out matches Some(x) ==> val_ok(x)
    &&& role_ok(s.mode)
    &&& s.bars matches Some(b) ==> b.value() != 0
}

/// The accumulator the printed pairs of `s` build.
pub open spec fn spec_acc(s: ChannelSpecV) -> AccV {
    tail_acc(
        role_acc(
            AccV { dev_seen: true, grid_str: Some(grid_name(s.grid)), id: s.id, out: s.out, ..acc_init() },
            s.mode,
        ),
        s,
    )
}

/// Applying an optional identifier.
proof fn lemma_apply_id(a: AccV, v: Option<Seq<char>>)
    requires
        a.id is None,
    ensures
        apply_all(a, opt_pairs("id"@, v), 0) == Ok::<AccV, SpecErrV>(AccV { id: v, ..a }),
{
    match v {
        Some(x) => {
            lemma_step_id(a, x);
            lemma_apply_one(a, "id"@, x);
        },
        None => {
            lemma_apply_none(a);
        },
    }
}

/// Applying an optional routing target.
proof fn lemma_apply_out(a: AccV, v: Option<Seq<char>>)
    requires
        a.out is None,
    ensures
        apply_all(a, opt_pairs("out"@, v), 0) == Ok::<AccV, SpecErrV>(AccV { out: v, ..a }),
{
    match v {
        Some(x) => {
            lemma_step_out(a, x);
            lemma_apply_one(a, "out"@, x);
        },
        None => {
            lemma_apply_none(a);
        },
    }
}

/// Applying `dev=midi` and the printed pairs of `s` to a fresh
/// accumulator builds [`spec_acc`].
pub proof fn lemma_apply_spec(s: ChannelSpecV)
    requires
        spec_ok(s),
    ensures
        apply_all(acc_init(), seq![("dev"@, "midi"@)] + spec_pairs(s), 0) == Ok::<AccV, SpecErrV>(
            spec_acc(s),
        ),
{
    let g = seq![("grid"@, grid_name(s.grid))];
    let i = opt_pairs("id"@, s.id);
    let o = opt_pairs("out"@, s.out);
    let r = role_pairs(s.mode);
    let t = tail_pairs(s);
    let a0 = acc_init();
    let a1 = AccV { dev_seen: true, ..a0 };
    let a2 = AccV { grid_str: Some(grid_name(s.grid)), ..a1 };
    let a3 = AccV { id: s.id, ..a2 };
    let a4 = AccV { out: s.out, ..a3 };
    let a5 = role_acc(a4, s.mode);
    lemma_step_dev(a0);
    lemma_apply_cons(a0, "dev"@, "midi"@, spec_pairs(s));
    lemma_step_grid(a1, grid_name(s.grid));
    lemma_apply_one(a1, "grid"@, grid_name(s.grid));
    lemma_apply_id(a2, s.id);
    lemma_apply_out(a3, s.out);
    lemma_apply_role(a4, s.mode);
    lemma_apply_tail(a5, s);
    lemma_apply_all_concat(a1, g + i + o + r, t);
    lemma_apply_all_concat(a1, g + i + o, r);
    lemma_apply_all_concat(a1, g + i, o);
    lemma_apply_all_concat(a1, g, i);
    assert(a4 == AccV { dev_seen: true, grid_str: Some(grid_name(s.grid)), id: s.id, out: s.out, ..acc_init() });
}


/// A grid's printed name parses back to the grid.
pub proof fn lemma_grid_name_parses(g: Grid, env: Seq<(Seq<char>, Grid)>)
    ensures
        crate::dsl::parse_spec(grid_name(g), env) == Ok::<Grid, DslErrorV>(g),
{
    let e = ExprV::Atom(g, Span { start: 0, end: 0 });
    assert(display_v(e, 0) == grid_name(g));
    lemma_display_parse_round_trip(e, env);
}

/// The role [`spec_acc`] describes is the spec's role.
proof fn lemma_role_back(a: AccV, m: MidiRole)
    requires
        role_ok(m),
        a.mode_kw == 0,
        a.note is None,
        a.vel is None,
        a.mch is None,
        a.accent_every is None,
        a.accent_note is None,
        a.accent_vel is None,
    ensures
        role_spec(role_acc(a, m)) == Ok::<MidiRole, SpecErrV>(m),
{
    match m {
        MidiRole::Click(cfg) => {
            match cfg.accent {
                Some(x) => {
                    lemma_nz_value(0, x.every.value());
                    lemma_nonzero_u32_value_injective(nz32(x.every.value()), x.every);
                    assert(role_spec(role_acc(a, m)) == Ok::<MidiRole, SpecErrV>(
                        MidiRole::Click(
                            MidiClickConfig {
                                note: cfg.note,
                                vel: cfg.vel,
                                ch: cfg.ch,
                                accent: Some(
                                    MidiClickAccent { every: x.every, note: x.note, vel: x.vel },
                                ),
                            },
                        ),
                    ));
                },
                None => {},
            }
        },
        _ => {},
    }
}

/// Finishing [`spec_acc`] gives the spec back.
pub proof fn lemma_finish_spec_acc(s: ChannelSpecV, env: Seq<(Seq<char>, Grid)>)
    requires
        spec_ok(s),
    ensures
        finish_spec(spec_acc(s), env) == Ok::<ChannelSpecV, SpecErrV>(s),
{
    let a4 = AccV { dev_seen: true, grid_str: Some(grid_name(s.grid)), id: s.id, out: s.out, ..acc_init() };
    lemma_grid_name_parses(s.grid, env);
    lemma_role_back(a4, s.mode);
    assert(role_spec(spec_acc(s)) == role_spec(role_acc(a4, s.mode)));
    match s.bars {
        Some(b) => {
            lemma_nz_value(b.value(), 0);
            lemma_nonzero_u16_value_injective(nz16(b.value()), b);
        },
        None => {},
    }
}


/// The printed keys are readable keys.
proof fn lemma_keys_ok()
    ensures
        key_ok("grid"@),
        key_ok("id"@),
        key_ok("out"@),
        key_ok("mode"@),
        key_ok("note"@),
        key_ok("vel"@),
        key_ok("mch"@),
        key_ok("accent-every"@),
        key_ok("accent-note"@),
        key_ok("accent-vel"@),
        key_ok("bars"@),
        key_ok("swing"@),
        key_ok("offset"@),
        key_ok("delay"@),
        key_ok("snap-quantum-us"@),
{
    lemma_keys();
    assert(key_ok("grid"@)) by {
        assert forall|i: int| 0 <= i < "grid"@.len() implies !is_ws(#[trigger] "grid"@[i]) && "grid"@[i] != ','
            && "grid"@[i] != '=' && "grid"@[i] != '"' by {
            assert(plain_char("grid"@[i]));
        }
    }
    assert(key_ok("id"@)) by {
        assert forall|i: int| 0 <= i < "id"@.len() implies !is_ws(#[trigger] "id"@[i]) && "id"@[i] != ','
            && "id"@[i] != '=' && "id"@[i] != '"' by {
            assert(plain_char("id"@[i]));
        }
    }
    assert(key_ok("out"@)) by {
        assert forall|i: int| 0 <= i < "out"@.len() implies !is_ws(#[trigger] "out"@[i]) && "out"@[i] != ','
            && "out"@[i] != '=' && "out"@[i] != '"' by {
            assert(plain_char("out"@[i]));
        }
    }
    assert(key_ok("mode"@)) by {
        assert forall|i: int| 0 <= i < "mode"@.len() implies !is_ws(#[trigger] "mode"@[i]) && "mode"@[i] != ','
            && "mode"@[i] != '=' && "mode"@[i] != '"' by {
            assert(plain_char("mode"@[i]));
        }
    }
    assert(key_ok("note"@)) by {
        assert forall|i: int| 0 <= i < "note"@.len() implies !is_ws(#[trigger] "note"@[i]) && "note"@[i] != ','
            && "note"@[i] != '=' && "note"@[i] != '"' by {
            assert(plain_char("note"@[i]));
        }
    }
    assert(key_ok("vel"@)) by {
        assert forall|i: int| 0 <= i < "vel"@.len() implies !is_ws(#[trigger] "vel"@[i]) && "vel"@[i] != ','
            && "vel"@[i] != '=' && "vel"@[i] != '"' by {
            assert(plain_char("vel"@[i]));
        }
    }
    assert(key_ok("mch"@)) by {
        assert forall|i: int| 0 <= i < "mch"@.len() implies !is_ws(#[trigger] "mch"@[i]) && "mch"@[i] != ','
            && "mch"@[i] != '=' && "mch"@[i] != '"' by {
            assert(plain_char("mch"@[i]));
        }
    }
    assert(key_ok("accent-every"@)) by {
        assert forall|i: int| 0 <= i < "accent-every"@.len() implies !is_ws(#[trigger] "accent-every"@[i]) && "accent-every"@[i] != ','
            && "accent-every"@[i] != '=' && "accent-every"@[i] != '"' by {
            assert(plain_char("accent-every"@[i]));
        }
    }
    assert(key_ok("accent-note"@)) by {
        assert forall|i: int| 0 <= i < "accent-note"@.len() implies !is_ws(#[trigger] "accent-note"@[i]) && "accent-note"@[i] != ','
            && "accent-note"@[i] != '=' && "accent-note"@[i] != '"' by {
            assert(plain_char("accent-note"@[i]));
        }
    }
    assert(key_ok("accent-vel"@)) by {
        assert forall|i: int| 0 <= i < "accent-vel"@.len() implies !is_ws(#[trigger] "accent-vel"@[i]) && "accent-vel"@[i] != ','
            && "accent-vel"@[i] != '=' && "accent-vel"@[i] != '"' by {
            assert(plain_char("accent-vel"@[i]));
        }
    }
    assert(key_ok("bars"@)) by {
        assert forall|i: int| 0 <= i < "bars"@.len() implies !is_ws(#[trigger] "bars"@[i]) && "bars"@[i] != ','
            && "bars"@[i] != '=' && "bars"@[i] != '"' by {
            assert(plain_char("bars"@[i]));
        }
    }
    assert(key_ok("swing"@)) by {
        assert forall|i: int| 0 <= i < "swing"@.len() implies !is_ws(#[trigger] "swing"@[i]) && "swing"@[i] != ','
            && "swing"@[i] != '=' && "swing"@[i] != '"' by {
            assert(plain_char("swing"@[i]));
        }
    }
    assert(key_ok("offset"@)) by {
        assert forall|i: int| 0 <= i < "offset"@.len() implies !is_ws(#[trigger] "offset"@[i]) && "offset"@[i] != ','
            && "offset"@[i] != '=' && "offset"@[i] != '"' by {
            assert(plain_char("offset"@[i]));
        }
    }
    assert(key_ok("delay"@)) by {
        assert forall|i: int| 0 <= i < "delay"@.len() implies !is_ws(#[trigger] "delay"@[i]) && "delay"@[i] != ','
            && "delay"@[i] != '=' && "delay"@[i] != '"' by {
            assert(plain_char("delay"@[i]));
        }
    }
    assert(key_ok("snap-quantum-us"@)) by {
        assert forall|i: int| 0 <= i < "snap-quantum-us"@.len() implies !is_ws(#[trigger] "snap-quantum-us"@[i]) && "snap-quantum-us"@[i] != ','
            && "snap-quantum-us"@[i] != '=' && "snap-quantum-us"@[i] != '"' by {
            assert(plain_char("snap-quantum-us"@[i]));
        }
    }
}

/// One pair with a readable key and value.
proof fn lemma_pair_ok(k: Seq<char>, v: Seq<char>)
    requires
        key_ok(k),
        val_ok(v),
    ensures
        pairs_ok(seq![(k, v)]),
{
    assert(seq![(k, v)][0] == (k, v));
}

/// Readable pairs stay readable when joined.
proof fn lemma_pairs_ok_concat(p: Seq<(Seq<char>, Seq<char>)>, q: Seq<(Seq<char>, Seq<char>)>)
    requires
        pairs_ok(p),
        pairs_ok(q),
    ensures
        pairs_ok(p + q),
{
    assert forall|i: int| 0 <= i < (p + q).len() implies key_ok(#[trigger] (p + q)[i].0) && val_ok(
        (p + q)[i].1,
    ) by {
        if i < p.len() {
            assert((p + q)[i] == p[i]);
            assert(key_ok(p[i].0) && val_ok(p[i].1));
        } else {
            assert((p + q)[i] == q[i - p.len()]);
            assert(key_ok(q[i - p.len()].0) && val_ok(q[i - p.len()].1));
        }
    }
}

/// A pair whose value is plain is readable.
proof fn lemma_plain_pair_ok(k: Seq<char>, v: Seq<char>)
    requires
        key_ok(k),
        plain(v),
    ensures
        pairs_ok(seq![(k, v)]),
{
    lemma_plain(v);
    lemma_pair_ok(k, v);
}

/// The printed pairs of a spec that round-trips are readable.
pub proof fn lemma_spec_pairs_ok(s: ChannelSpecV)
    requires
        spec_ok(s),
    ensures
        pairs_ok(spec_pairs(s)),
{
    let e = Seq::<(Seq<char>, Seq<char>)>::empty();
    assert(pairs_ok(e));
    lemma_keys_ok();
    lemma_keys();
    let g = seq![("grid"@, grid_name(s.grid))];
    let i = opt_pairs("id"@, s.id);
    let o = opt_pairs("out"@, s.out);
    let r = role_pairs(s.mode);
    let t = tail_pairs(s);
    lemma_grid_name_plain(s.grid);
    lemma_plain_pair_ok("grid"@, grid_name(s.grid));
    match s.id {
        Some(x) => lemma_pair_ok("id"@, x),
        None => {},
    }
    match s.out {
        Some(x) => lemma_pair_ok("out"@, x),
        None => {},
    }
    assert(pairs_ok(r)) by {
        match s.mode {
            MidiRole::Click(cfg) => {
                assert(plain("click"@));
                lemma_plain_pair_ok("mode"@, "click"@);
                lemma_plain_decimal(cfg.note.0 as int);
                lemma_plain_pair_ok("note"@, nat_decimal(cfg.note.0 as nat));
                lemma_plain_decimal(cfg.vel.0 as int);
                lemma_plain_pair_ok("vel"@, nat_decimal(cfg.vel.0 as nat));
                lemma_plain_decimal(cfg.ch.0 as int + 1);
                lemma_plain_pair_ok("mch"@, nat_decimal(cfg.ch.0 as nat + 1));
                let h1 = seq![("mode"@, "click"@)];
                let h2 = seq![("note"@, nat_decimal(cfg.note.0 as nat))];
                let h3 = seq![("vel"@, nat_decimal(cfg.vel.0 as nat))];
                let h4 = seq![("mch"@, nat_decimal(cfg.ch.0 as nat + 1))];
                lemma_pairs_ok_concat(h1, h2);
                lemma_pairs_ok_concat(h1 + h2, h3);
                lemma_pairs_ok_concat(h1 + h2 + h3, h4);
                assert(pairs_ok(accent_pairs(cfg))) by {
                    match cfg.accent {
                        Some(x) => {
                            lemma_plain_decimal(x.every.value() as int);
                            lemma_plain_pair_ok("accent-every"@, nat_decimal(x.every.value() as nat));
                            lemma_plain_decimal(x.vel.0 as int);
                            lemma_plain_pair_ok("accent-vel"@, nat_decimal(x.vel.0 as nat));
                            lemma_plain_decimal(x.note.0 as int);
                            lemma_plain_pair_ok("accent-note"@, nat_decimal(x.note.0 as nat));
                            let q1 = seq![("accent-every"@, nat_decimal(x.every.value() as nat))];
                            let q2 = seq![("accent-vel"@, nat_decimal(x.vel.0 as nat))];
                            let q3: Seq<(Seq<char>, Seq<char>)> = if x.note != cfg.note {
                                seq![("accent-note"@, nat_decimal(x.note.0 as nat))]
                            } else {
                                e
                            };
                            lemma_pairs_ok_concat(q1, q2);
                            lemma_pairs_ok_concat(q1 + q2, q3);
                            assert(accent_pairs(cfg) =~= q1 + q2 + q3);
                        },
                        None => {},
                    }
                }
                lemma_pairs_ok_concat(h1 + h2 + h3 + h4, accent_pairs(cfg));
                assert(r =~= h1 + h2 + h3 + h4 + accent_pairs(cfg));
            },
            _ => {},
        }
    }
    assert(pairs_ok(t)) by {
        let sw: Seq<(Seq<char>, Seq<char>)> = if s.swing.amount == 0 && s.swing.resolution == TBase::T8 {
            e
        } else {
            seq![("swing"@, swing_value(s.swing.resolution, s.swing.amount))]
        };
        let of: Seq<(Seq<char>, Seq<char>)> = if s.offset_ticks != 0 {
            seq![("offset"@, int_decimal(s.offset_ticks as int))]
        } else {
            e
        };
        let de: Seq<(Seq<char>, Seq<char>)> = if s.delay != 0 {
            seq![("delay"@, delay_value(s.delay as int))]
        } else {
            e
        };
        let sn: Seq<(Seq<char>, Seq<char>)> = match s.snap_to_quantum_micro {
            Some(q) => seq![("snap-quantum-us"@, int_decimal(q as int))],
            None => e,
        };
        let ba: Seq<(Seq<char>, Seq<char>)> = match s.bars {
            Some(b) => seq![("bars"@, nat_decimal(b.value() as nat))],
            None => e,
        };
        lemma_swing_value_plain(s.swing.resolution, s.swing.amount);
        lemma_plain_pair_ok("swing"@, swing_value(s.swing.resolution, s.swing.amount));
        lemma_plain_decimal(s.offset_ticks as int);
        lemma_plain_pair_ok("offset"@, int_decimal(s.offset_ticks as int));
        if s.delay != 0 {
            lemma_delay_value_plain(s.delay as int);
            lemma_plain_pair_ok("delay"@, delay_value(s.delay as int));
        }
        match s.snap_to_quantum_micro {
            Some(q) => {
                lemma_plain_decimal(q as int);
                lemma_plain_pair_ok("snap-quantum-us"@, int_decimal(q as int));
            },
            None => {},
        }
        match s.bars {
            Some(b) => {
                lemma_plain_decimal(b.value() as int);
                lemma_plain_pair_ok("bars"@, nat_decimal(b.value() as nat));
            },
            None => {},
        }
        lemma_pairs_ok_concat(sw, of);
        lemma_pairs_ok_concat(sw + of, de);
        lemma_pairs_ok_concat(sw + of + de, sn);
        lemma_pairs_ok_concat(sw + of + de + sn, ba);
        assert(t == sw + of + de + sn + ba);
    }
    lemma_pairs_ok_concat(g, i);
    lemma_pairs_ok_concat(g + i, o);
    lemma_pairs_ok_concat(g + i + o, r);
    lemma_pairs_ok_concat(g + i + o + r, t);
}


/// Printing a spec and parsing the text back gives the same spec, for
/// every spec whose delay is not negative, whose identifier and routing
/// target hold no double quote, whose role is a clock or a click with
/// its numbers in their MIDI ranges, and whose bar filter is not zero;
/// whatever grids earlier channels have.
pub proof fn lemma_spec_display_parse_round_trip(s: ChannelSpecV, env: Seq<(Seq<char>, Grid)>)
    requires
        spec_ok(s),
    ensures
        channel_spec_of(spec_text(s), env) == Ok::<ChannelSpecV, SpecErrV>(s),
{
    lemma_spec_text(s);
    lemma_spec_pairs_ok(s);
    lemma_tokenize_spec_text(spec_pairs(s));
    lemma_apply_spec(s);
    lemma_finish_spec_acc(s, env);
}


/// The clock spec on `t4` with only a snap quantum.
pub open spec fn snap_only_spec(n: i64) -> ChannelSpecV {
    ChannelSpecV {
        id: None,
        out: None,
        grid: Grid::T4,
        mode: MidiRole::Clock,
        swing: SwingConfig { resolution: TBase::T8, amount: 0 },
        offset_ticks: 0,
        delay: 0,
        snap_to_quantum_micro: Some(n),
        bars: None,
    }
}

/// How [`snap_only_spec`] prints.
proof fn lemma_snap_only_text(n: i64)
    ensures
        spec_text(snap_only_spec(n)) == "dev=midi,grid=t4,snap-quantum-us="@ + int_decimal(n as int),
{
    let s = snap_only_spec(n);
    let head = "dev=midi,grid="@ + grid_name(Grid::T4);
    let snap = ",snap-quantum-us="@ + int_decimal(n as int);
    assert(head =~= "dev=midi,grid=t4"@) by {
        reveal_strlit("dev=midi,grid=t4");
        reveal_strlit("dev=midi,grid=");
        assert(nat_decimal(4) =~= seq![digit_char(4)]);
        assert(grid_name(Grid::T4) =~= seq!['t', '4']);
    }
    assert(spec_text(s) =~= head + snap);
    assert("dev=midi,grid=t4,snap-quantum-us="@ + int_decimal(n as int) =~= "dev=midi,grid=t4"@ + snap) by {
        reveal_strlit("dev=midi,grid=t4,snap-quantum-us=");
        reveal_strlit("dev=midi,grid=t4");
        reveal_strlit(",snap-quantum-us=");
    }
}

/// A clock spec on `t4` with a snap quantum: `snap-quantum-us=N` reads
/// back as `N`, for every `i64`.
pub proof fn lemma_snap_quantum_round_trip(n: i64, env: Seq<(Seq<char>, Grid)>)
    ensures
        channel_spec_of("dev=midi,grid=t4,snap-quantum-us="@ + int_decimal(n as int), env) == Ok::<
            ChannelSpecV,
            SpecErrV,
        >(snap_only_spec(n)),
{
    lemma_snap_only_text(n);
    lemma_spec_display_parse_round_trip(snap_only_spec(n), env);
}

} // verus!
