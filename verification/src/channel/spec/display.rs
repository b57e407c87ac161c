//! Printing a spec in the form the parser reads back: every key the
//! parser accepts, defaults omitted, values quoted when they need it.

use vstd::prelude::*;
use crate::channel::role::{MidiClickConfig, MidiRole};
use crate::channel::spec::tokenize::{quote_if_needed, quote_spec};
use crate::channel::spec::types::{ChannelSpec, ChannelSpecV};
use crate::notation::{grid_name, tbase_name};
use crate::text::{digit_char, int_decimal, nat_decimal, push_char, push_i64, push_str, push_u64};
use crate::time::TBase;

verus! {

/// `n < 1000` as exactly three digits, with leading zeros.
pub open spec fn pad3(n: nat) -> Seq<char> {
    seq![digit_char(n / 100), digit_char((n / 10) % 10), digit_char(n % 10)]
}

/// The `,key=...` text of an optional string field.
pub open spec fn opt_field(key: Seq<char>, v: Option<Seq<char>>) -> Seq<char> {
    match v {
        Some(s) => key + quote_spec(s),
        None => Seq::empty(),
    }
}

/// The text of the role: nothing for clock (the default) and for a
/// controller; the click keys otherwise, the accent note only when it
/// differs from the note.
pub open spec fn role_text(m: MidiRole) -> Seq<char> {
    match m {
        MidiRole::Click(cfg) => ",mode=click,note="@ + nat_decimal(cfg.note.0 as nat) + ",vel="@
            + nat_decimal(cfg.vel.0 as nat) + ",mch="@ + nat_decimal(cfg.ch.0 as nat + 1)
            + match cfg.accent {
            Some(a) => ",accent-every="@ + nat_decimal(a.every.value() as nat) + ",accent-vel="@
                + nat_decimal(a.vel.0 as nat) + if a.note != cfg.note {
                ",accent-note="@ + nat_decimal(a.note.0 as nat)
            } else {
                Seq::empty()
            },
            None => Seq::empty(),
        },
        _ => Seq::empty(),
    }
}

/// The text of the swing: omitted at `T8:0`, the bare amount at `T8`.
pub open spec fn swing_text(res: TBase, amount: i8) -> Seq<char> {
    if amount == 0 && res == TBase::T8 {
        Seq::empty()
    } else if res == TBase::T8 {
        ",swing="@ + int_decimal(amount as int)
    } else {
        ",swing="@ + tbase_name(res) + seq![':'] + int_decimal(amount as int)
    }
}

/// The text of a non-negative delay in microseconds: omitted at zero,
/// whole milliseconds, or milliseconds with three decimals.
pub open spec fn delay_text(us: int) -> Seq<char> {
    if us == 0 {
        Seq::empty()
    } else if us % 1000 == 0 {
        ",delay="@ + nat_decimal((us / 1000) as nat)
    } else {
        ",delay="@ + nat_decimal((us / 1000) as nat) + seq!['.'] + pad3((us % 1000) as nat)
    }
}

/// The printed form of a spec.
pub open spec fn spec_text(s: ChannelSpecV) -> Seq<char> {
    "dev=midi,grid="@ + grid_name(s.grid) + opt_field(",id="@, s.id) + opt_field(",out="@, s.out)
        + role_text(s.mode) + swing_text(s.swing.resolution, s.swing.amount) + if s.offset_ticks
        != 0 {
        ",offset="@ + int_decimal(s.offset_ticks as int)
    } else {
        Seq::empty()
    } + delay_text(s.delay as int) + match s.snap_to_quantum_micro {
        Some(q) => ",snap-quantum-us="@ + int_decimal(q as int),
        None => Seq::empty(),
    } + match s.bars {
        Some(b) => ",bars="@ + nat_decimal(b.value() as nat),
        None => Seq::empty(),
    }
}

/// The characters a printed role needs: the zero-based channel of a
/// click plus one must fit in a byte.
pub open spec fn printable(s: ChannelSpecV) -> bool {
    s.delay >= 0 && match s.mode {
        MidiRole::Click(cfg) => cfg.ch.0 < 255,
        _ => true,
    }
}

fn push_role(out: &mut String, m: &MidiRole)
    requires
        match *m {
            MidiRole::Click(cfg) => cfg.ch.0 < 255,
            _ => true,
        },
    ensures
        final(out)@ == old(out)@ + role_text(*m),
{
    match m {
        MidiRole::Click(cfg) => {
            push_str(out, ",mode=click,note=");
            push_u64(out, cfg.note.0 as u64);
            push_str(out, ",vel=");
            push_u64(out, cfg.vel.0 as u64);
            push_str(out, ",mch=");
            push_u64(out, (cfg.ch.0 + 1) as u64);
            match &cfg.accent {
                Some(a) => {
                    push_str(out, ",accent-every=");
                    push_u64(out, a.every.get() as u64);
                    push_str(out, ",accent-vel=");
                    push_u64(out, a.vel.0 as u64);
                    if a.note.0 != cfg.note.0 {
                        push_str(out, ",accent-note=");
                        push_u64(out, a.note.0 as u64);
                    }
                },
                None => {},
            }
        },
        _ => {},
    }
    assert(final(out)@ =~= old(out)@ + role_text(*m));
}

fn push_opt_field(out: &mut String, key: &str, v: &Option<String>)
    ensures
        final(out)@ == old(out)@ + opt_field(key@, crate::channel::spec::types::opt_view(*v)),
{
    match v {
        Some(x) => {
            push_str(out, key);
            let q = quote_if_needed(x.as_str());
            push_str(out, q.as_str());
        },
        None => {},
    }
    assert(final(out)@ =~= old(out)@ + opt_field(key@, crate::channel::spec::types::opt_view(*v)));
}

fn push_swing(out: &mut String, res: TBase, amount: i8)
    ensures
        final(out)@ == old(out)@ + swing_text(res, amount),
{
    if amount != 0 || res != TBase::T8 {
        push_str(out, ",swing=");
        if res != TBase::T8 {
            let r = res.name();
            push_str(out, r.as_str());
            push_char(out, ':');
        }
        push_i64(out, amount as i64);
    }
    assert(final(out)@ =~= old(out)@ + swing_text(res, amount));
}

fn push_delay(out: &mut String, us: i64)
    requires
        us >= 0,
    ensures
        final(out)@ == old(out)@ + delay_text(us as int),
{
    if us != 0 {
        let ms = (us / 1000) as u64;
        let frac = (us % 1000) as u64;
        push_str(out, ",delay=");
        push_u64(out, ms);
        if frac != 0 {
            push_char(out, '.');
            push_u64(out, frac / 100);
            push_u64(out, (frac / 10) % 10);
            push_u64(out, frac % 10);
        }
    }
    assert(final(out)@ =~= old(out)@ + delay_text(us as int));
}

fn push_tail(out: &mut String, offset: i32, snap: Option<i64>, bars: Option<crate::nonzero::NonZeroU16>)
    ensures
        final(out)@ == old(out)@ + (if offset != 0 {
            ",offset="@ + int_decimal(offset as int)
        } else {
            Seq::empty()
        }),
{
    if offset != 0 {
        push_str(out, ",offset=");
        push_i64(out, offset as i64);
    }
    assert(final(out)@ =~= old(out)@ + (if offset != 0 {
        ",offset="@ + int_decimal(offset as int)
    } else {
        Seq::empty()
    }));
}

fn push_snap_bars(out: &mut String, snap: Option<i64>, bars: Option<crate::nonzero::NonZeroU16>)
    ensures
        final(out)@ == old(out)@ + match snap {
            Some(q) => ",snap-quantum-us="@ + int_decimal(q as int),
            None => Seq::empty(),
        } + match bars {
            Some(b) => ",bars="@ + nat_decimal(b.value() as nat),
            None => Seq::empty(),
        },
{
    let ghost o = out@;
    match snap {
        Some(q) => {
            push_str(out, ",snap-quantum-us=");
            push_i64(out, q);
        },
        None => {},
    }
    let ghost mid = out@;
    match bars {
        Some(b) => {
            push_str(out, ",bars=");
            push_u64(out, b.get() as u64);
        },
        None => {},
    }
    assert(mid =~= o + match snap {
        Some(q) => ",snap-quantum-us="@ + int_decimal(q as int),
        None => Seq::empty(),
    });
    assert(final(out)@ =~= mid + match bars {
        Some(b) => ",bars="@ + nat_decimal(b.value() as nat),
        None => Seq::empty(),
    });
}

impl ChannelSpec {
    /// The spec printed as `key=value` pairs the parser reads back.
    pub fn to_string(&self) -> (s: String)
        requires
            printable(self@),
        ensures
            s@ == spec_text(self@),
    {
        let mut s = String::new();
        push_str(&mut s, "dev=midi,grid=");
        let g = self.grid.name();
        push_str(&mut s, g.as_str());
        let ghost s1 = s@;
        push_opt_field(&mut s, ",id=", &self.id);
        push_opt_field(&mut s, ",out=", &self.out);
        push_role(&mut s, &self.mode);
        push_swing(&mut s, self.swing.resolution, self.swing.amount);
        push_tail(&mut s, self.offset_ticks, self.snap_to_quantum_micro, self.bars);
        push_delay(&mut s, self.delay.0);
        push_snap_bars(&mut s, self.snap_to_quantum_micro, self.bars);
        assert(s@ =~= spec_text(self@));
        s
    }
}

} // verus!
