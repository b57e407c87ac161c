//! Parsing a `--ch` spec: split into pairs, apply each pair to an
//! accumulator (the first failing pair decides the error), then resolve
//! the grid expression, assemble the MIDI role and check `dev=`.

use vstd::prelude::*;
use crate::channel::role::{MidiClickAccent, MidiClickConfig, MidiRole};
use crate::channel::spec::error::{ChannelSpecError, SpecErrV};
use crate::channel::spec::tokenize::{pairs_view, tokenize, tokenize_spec};
use crate::channel::spec::types::{opt_view, ChannelSpec, ChannelSpecV};
use crate::channel::spec::values::{
    delay_spec, int_err_msg, int_error_message, parse_delay_ms, parse_swing, swing_spec,
};
use crate::dsl::error::error_message;
use crate::dsl::eval::env_view;
use crate::fxp::Micro;
use crate::midi::{U4, U7};
use crate::nonzero::{lemma_nz_value, nz16, nz32, NonZeroU16, NonZeroU32};
use crate::swing::SwingConfig;
use crate::text::{chars_of, nat_decimal, parse_int, parse_int_spec, push_str, push_u64};
use crate::time::{Grid, TBase};

verus! {

/// Whether the characters `a` spell `b`.
pub fn eq_lit(a: &Vec<char>, b: &str) -> (r: bool)
    ensures
        r == (a@ == b@),
{
    let bc = chars_of(b);
    if a.len() != bc.len() {
        return false;
    }
    let mut i: usize = 0;
    while i < a.len()
        invariant
            0 <= i <= a@.len(),
            a@.len() == bc@.len(),
            bc@ == b@,
            forall|j: int| 0 <= j < i ==> a@[j] == bc@[j],
        decreases a.len() - i,
    {
        if a[i] != bc[i] {
            return false;
        }
        i += 1;
    }
    assert(a@ =~= bc@);
    true
}

/// What the pairs seen so far have set.
pub struct AccV {
    pub id: Option<Seq<char>>,
    pub dev_seen: bool,
    pub out: Option<Seq<char>>,
    pub grid_str: Option<Seq<char>>,
    pub swing: SwingConfig,
    pub offset: i32,
    pub delay: i64,
    pub snap: Option<i64>,
    /// 0: no `mode=`, 1: `clock`, 2: `click`.
    pub mode_kw: u8,
    pub note: Option<U7>,
    pub vel: Option<U7>,
    pub mch: Option<U4>,
    pub accent_every: Option<u32>,
    pub accent_note: Option<U7>,
    pub accent_vel: Option<U7>,
    pub bars: Option<u16>,
}

/// An accumulator built by applying pairs: a period set by
/// `accent-every` is never zero.
pub open spec fn acc_wf(a: AccV) -> bool {
    a.accent_every != Some(0u32)
}

/// Nothing set yet: swing `T8:0`, no offset, no delay.
pub open spec fn acc_init() -> AccV {
    AccV {
        id: None,
        dev_seen: false,
        out: None,
        grid_str: None,
        swing: SwingConfig { resolution: TBase::T8, amount: 0 },
        offset: 0,
        delay: 0,
        snap: None,
        mode_kw: 0,
        note: None,
        vel: None,
        mch: None,
        accent_every: None,
        accent_note: None,
        accent_vel: None,
        bars: None,
    }
}

/// A `0..=127` value (note numbers).
pub open spec fn note_spec(key: Seq<char>, v: Seq<char>) -> Result<U7, SpecErrV> {
    match parse_int_spec(v, 0, 255) {
        Err(e) => Err(SpecErrV::BadValue(key, int_err_msg(e))),
        Ok(n) => if n <= 127 {
            Ok(U7(n as u8))
        } else {
            Err(SpecErrV::BadValue(key, "must be 0..=127, got "@ + nat_decimal(n as nat)))
        },
    }
}

/// A `1..=127` velocity (0 would be a Note Off).
pub open spec fn vel_spec(key: Seq<char>, v: Seq<char>) -> Result<U7, SpecErrV> {
    match parse_int_spec(v, 0, 255) {
        Err(e) => Err(SpecErrV::BadValue(key, int_err_msg(e))),
        Ok(n) => if 1 <= n <= 127 {
            Ok(U7(n as u8))
        } else {
            Err(
                SpecErrV::BadValue(
                    key,
                    "must be 1..=127 (vel=0 is Note Off), got "@ + nat_decimal(n as nat),
                ),
            )
        },
    }
}

/// A user-facing MIDI channel `1..=16`, stored zero-based.
pub open spec fn mch_spec(v: Seq<char>) -> Result<U4, SpecErrV> {
    match parse_int_spec(v, 0, 255) {
        Err(e) => Err(SpecErrV::BadValue("mch"@, int_err_msg(e))),
        Ok(n) => if 1 <= n <= 16 {
            Ok(U4((n - 1) as u8))
        } else {
            Err(
                SpecErrV::BadValue(
                    "mch"@,
                    "must be 1..=16 (user-facing), got "@ + nat_decimal(n as nat),
                ),
            )
        },
    }
}

/// A positive integer at most `hi`.
pub open spec fn positive_spec(key: Seq<char>, v: Seq<char>, hi: int) -> Result<int, SpecErrV> {
    match parse_int_spec(v, 0, hi) {
        Err(e) => Err(SpecErrV::BadValue(key, int_err_msg(e))),
        Ok(n) => if n == 0 {
            Err(SpecErrV::BadValue(key, "must be > 0"@))
        } else {
            Ok(n)
        },
    }
}

/// An integer in `[lo, hi]`.
pub open spec fn int_spec(key: Seq<char>, v: Seq<char>, lo: int, hi: int) -> Result<int, SpecErrV> {
    match parse_int_spec(v, lo, hi) {
        Err(e) => Err(SpecErrV::BadValue(key, int_err_msg(e))),
        Ok(n) => Ok(n),
    }
}

/// The message of an unknown `mode=` value.
pub open spec fn mode_err_msg(v: Seq<char>) -> Seq<char> {
    "expected `clock` or `click`, got `"@ + v + "`"@
}

/// Apply one `key=value` pair.
pub open spec fn apply_pair_spec(a: AccV, k: Seq<char>, v: Seq<char>) -> Result<AccV, SpecErrV> {
    if k == "id"@ {
        Ok(AccV { id: Some(v), ..a })
    } else if k == "dev"@ {
        if v == "midi"@ {
            Ok(AccV { dev_seen: true, ..a })
        } else if v == "audio"@ {
            Err(SpecErrV::AudioDeferred)
        } else {
            Err(SpecErrV::BadValue("dev"@, v))
        }
    } else if k == "out"@ {
        Ok(AccV { out: Some(v), ..a })
    } else if k == "grid"@ {
        Ok(AccV { grid_str: Some(v), ..a })
    } else if k == "mode"@ {
        if v == "clock"@ {
            Ok(AccV { mode_kw: 1, ..a })
        } else if v == "click"@ {
            Ok(AccV { mode_kw: 2, ..a })
        } else {
            Err(SpecErrV::BadValue("mode"@, mode_err_msg(v)))
        }
    } else if k == "note"@ {
        match note_spec("note"@, v) {
            Ok(n) => Ok(AccV { note: Some(n), ..a }),
            Err(e) => Err(e),
        }
    } else if k == "vel"@ {
        match vel_spec("vel"@, v) {
            Ok(n) => Ok(AccV { vel: Some(n), ..a }),
            Err(e) => Err(e),
        }
    } else if k == "mch"@ {
        match mch_spec(v) {
            Ok(c) => Ok(AccV { mch: Some(c), ..a }),
            Err(e) => Err(e),
        }
    } else if k == "accent-every"@ {
        match positive_spec("accent-every"@, v, u32::MAX as int) {
            Ok(n) => Ok(AccV { accent_every: Some(n as u32), ..a }),
            Err(e) => Err(e),
        }
    } else if k == "accent-note"@ {
        match note_spec("accent-note"@, v) {
            Ok(n) => Ok(AccV { accent_note: Some(n), ..a }),
            Err(e) => Err(e),
        }
    } else if k == "accent-vel"@ {
        match vel_spec("accent-vel"@, v) {
            Ok(n) => Ok(AccV { accent_vel: Some(n), ..a }),
            Err(e) => Err(e),
        }
    } else if k == "bars"@ {
        match positive_spec("bars"@, v, u16::MAX as int) {
            Ok(n) => Ok(AccV { bars: Some(n as u16), ..a }),
            Err(e) => Err(e),
        }
    } else if k == "swing"@ {
        match swing_spec(v) {
            Ok(sw) => Ok(AccV { swing: sw, ..a }),
            Err(e) => Err(e),
        }
    } else if k == "offset"@ {
        match int_spec("offset"@, v, i32::MIN as int, i32::MAX as int) {
            Ok(n) => Ok(AccV { offset: n as i32, ..a }),
            Err(e) => Err(e),
        }
    } else if k == "delay"@ {
        match delay_spec(v) {
            Ok(us) => Ok(AccV { delay: us as i64, ..a }),
            Err(m) => Err(SpecErrV::BadValue("delay"@, m)),
        }
    } else if k == "snap-quantum-us"@ {
        match int_spec("snap-quantum-us"@, v, i64::MIN as int, i64::MAX as int) {
            Ok(n) => Ok(AccV { snap: Some(n as i64), ..a }),
            Err(e) => Err(e),
        }
    } else {
        Err(SpecErrV::UnknownKey(k))
    }
}

/// Apply the pairs `p[i..]` in order; the first failing pair decides.
pub open spec fn apply_all(a: AccV, p: Seq<(Seq<char>, Seq<char>)>, i: nat) -> Result<AccV, SpecErrV>
    decreases p.len() - i,
{
    if i >= p.len() {
        Ok(a)
    } else {
        match apply_pair_spec(a, p[i as int].0, p[i as int].1) {
            Ok(b) => apply_all(b, p, i + 1),
            Err(e) => Err(e),
        }
    }
}

/// The MIDI role the accumulated keys describe: clock (no click-only
/// key allowed) or click (note and velocity required, channel 10 by
/// default, an accent when `accent-every` is set).
pub open spec fn role_spec(a: AccV) -> Result<MidiRole, SpecErrV> {
    if a.mode_kw != 2 {
        if a.note is Some {
            Err(SpecErrV::BadValue("note"@, "only valid with mode=click"@))
        } else if a.vel is Some {
            Err(SpecErrV::BadValue("vel"@, "only valid with mode=click"@))
        } else if a.mch is Some {
            Err(SpecErrV::BadValue("mch"@, "only valid with mode=click"@))
        } else if a.accent_every is Some {
            Err(SpecErrV::BadValue("accent-every"@, "only valid with mode=click"@))
        } else if a.accent_note is Some {
            Err(SpecErrV::BadValue("accent-note"@, "only valid with mode=click"@))
        } else if a.accent_vel is Some {
            Err(SpecErrV::BadValue("accent-vel"@, "only valid with mode=click"@))
        } else {
            Ok(MidiRole::Clock)
        }
    } else if a.note is None {
        Err(SpecErrV::MissingKey("note"@))
    } else if a.vel is None {
        Err(SpecErrV::MissingKey("vel"@))
    } else {
        let note = a.note->0;
        let vel = a.vel->0;
        let ch = match a.mch {
            Some(c) => c,
            None => U4(9),
        };
        match a.accent_every {
            Some(e) => if a.accent_vel is None {
                Err(SpecErrV::MissingKey("accent-vel"@))
            } else {
                let an = match a.accent_note {
                    Some(x) => x,
                    None => note,
                };
                Ok(
                    MidiRole::Click(
                        MidiClickConfig {
                            note,
                            vel,
                            ch,
                            accent: Some(
                                MidiClickAccent {
                                    every: nz32(e),
                                    note: an,
                                    vel: a.accent_vel->0,
                                },
                            ),
                        },
                    ),
                )
            },
            None => if a.accent_vel is Some || a.accent_note is Some {
                Err(
                    SpecErrV::BadValue(
                        "accent-every"@,
                        "required when accent-vel or accent-note is set"@,
                    ),
                )
            } else {
                Ok(MidiRole::Click(MidiClickConfig { note, vel, ch, accent: None }))
            },
        }
    }
}

/// The grid expression of the spec (`T4` when absent).
pub open spec fn grid_text(a: AccV) -> Seq<char> {
    match a.grid_str {
        Some(g) => g,
        None => "T4"@,
    }
}

/// Finish a parse: resolve the grid, then the role, then require `dev`.
pub open spec fn finish_spec(a: AccV, env: Seq<(Seq<char>, Grid)>) -> Result<ChannelSpecV, SpecErrV> {
    match crate::dsl::parse_spec(grid_text(a), env) {
        Err(e) => Err(SpecErrV::BadValue("grid"@, error_message(e))),
        Ok(grid) => match role_spec(a) {
            Err(e) => Err(e),
            Ok(mode) => if !a.dev_seen {
                Err(SpecErrV::MissingKey("dev"@))
            } else {
                Ok(
                    ChannelSpecV {
                        id: a.id,
                        out: a.out,
                        grid,
                        mode,
                        swing: a.swing,
                        offset_ticks: a.offset,
                        delay: a.delay,
                        snap_to_quantum_micro: a.snap,
                        bars: match a.bars {
                            Some(n) => Some(nz16(n)),
                            None => None,
                        },
                    },
                )
            },
        },
    }
}

/// The meaning of a spec string given the grids of earlier channels.
pub open spec fn channel_spec_of(s: Seq<char>, env: Seq<(Seq<char>, Grid)>) -> Result<
    ChannelSpecV,
    SpecErrV,
> {
    match tokenize_spec(s) {
        Err(e) => Err(e),
        Ok(p) => match apply_all(acc_init(), p, 0) {
            Err(e) => Err(e),
            Ok(a) => finish_spec(a, env),
        },
    }
}

/// The accumulator of a parse in progress.
pub struct Acc {
    id: Option<String>,
    dev_seen: bool,
    out: Option<String>,
    grid_str: Option<String>,
    swing: SwingConfig,
    offset: i32,
    delay: i64,
    snap: Option<i64>,
    mode_kw: u8,
    note: Option<U7>,
    vel: Option<U7>,
    mch: Option<U4>,
    accent_every: Option<u32>,
    accent_note: Option<U7>,
    accent_vel: Option<U7>,
    bars: Option<NonZeroU16>,
}

impl View for Acc {
    type V = AccV;

    closed spec fn view(&self) -> AccV {
        AccV {
            id: opt_view(self.id),
            dev_seen: self.dev_seen,
            out: opt_view(self.out),
            grid_str: opt_view(self.grid_str),
            swing: self.swing,
            offset: self.offset,
            delay: self.delay,
            snap: self.snap,
            mode_kw: self.mode_kw,
            note: self.note,
            vel: self.vel,
            mch: self.mch,
            accent_every: self.accent_every,
            accent_note: self.accent_note,
            accent_vel: self.accent_vel,
            bars: match self.bars {
                Some(b) => Some(b.value()),
                None => None,
            },
        }
    }
}

fn u8_value(key: &'static str, v: &[char]) -> (r: Result<u8, ChannelSpecError>)
    ensures
        match r {
            Ok(n) => parse_int_spec(v@, 0, 255) == Ok::<int, crate::text::IntErrorKind>(n as int),
            Err(e) => parse_int_spec(v@, 0, 255) is Err && e@ == SpecErrV::BadValue(
                key@,
                int_err_msg(parse_int_spec(v@, 0, 255)->Err_0),
            ),
        },
{
    match parse_int(v, 0, 255) {
        Ok(n) => Ok(n as u8),
        Err(e) => Err(ChannelSpecError::BadValue(key, int_error_message(e))),
    }
}

fn got_msg(prefix: &str, n: u8) -> (s: String)
    ensures
        s@ == prefix@ + nat_decimal(n as nat),
{
    let mut s = String::new();
    push_str(&mut s, prefix);
    push_u64(&mut s, n as u64);
    s
}

fn note_value(key: &'static str, v: &[char]) -> (r: Result<U7, ChannelSpecError>)
    ensures
        match r {
            Ok(n) => note_spec(key@, v@) == Ok::<U7, SpecErrV>(n),
            Err(e) => note_spec(key@, v@) == Err::<U7, SpecErrV>(e@),
        },
{
    let n = u8_value(key, v)?;
    if n <= 127 {
        Ok(U7(n))
    } else {
        Err(ChannelSpecError::BadValue(key, got_msg("must be 0..=127, got ", n)))
    }
}

fn vel_value(key: &'static str, v: &[char]) -> (r: Result<U7, ChannelSpecError>)
    ensures
        match r {
            Ok(n) => vel_spec(key@, v@) == Ok::<U7, SpecErrV>(n),
            Err(e) => vel_spec(key@, v@) == Err::<U7, SpecErrV>(e@),
        },
{
    let n = u8_value(key, v)?;
    if 1 <= n && n <= 127 {
        Ok(U7(n))
    } else {
        Err(ChannelSpecError::BadValue(key, got_msg("must be 1..=127 (vel=0 is Note Off), got ", n)))
    }
}

fn mch_value(v: &[char]) -> (r: Result<U4, ChannelSpecError>)
    ensures
        match r {
            Ok(c) => mch_spec(v@) == Ok::<U4, SpecErrV>(c),
            Err(e) => mch_spec(v@) == Err::<U4, SpecErrV>(e@),
        },
{
    let n = u8_value("mch", v)?;
    if 1 <= n && n <= 16 {
        Ok(U4(n - 1))
    } else {
        Err(ChannelSpecError::BadValue("mch", got_msg("must be 1..=16 (user-facing), got ", n)))
    }
}

fn positive_value(key: &'static str, v: &[char], hi: i128) -> (r: Result<i128, ChannelSpecError>)
    requires
        0 < hi <= u64::MAX,
    ensures
        match r {
            Ok(n) => positive_spec(key@, v@, hi as int) == Ok::<int, SpecErrV>(n as int) && 0 < n <= hi,
            Err(e) => positive_spec(key@, v@, hi as int) == Err::<int, SpecErrV>(e@),
        },
{
    match parse_int(v, 0, hi) {
        Err(e) => Err(ChannelSpecError::BadValue(key, int_error_message(e))),
        Ok(n) => if n == 0 {
            let mut m = String::new();
            push_str(&mut m, "must be > 0");
            Err(ChannelSpecError::BadValue(key, m))
        } else {
            Ok(n)
        },
    }
}

fn int_value(key: &'static str, v: &[char], lo: i128, hi: i128) -> (r: Result<i128, ChannelSpecError>)
    requires
        -0x8000_0000_0000_0000 <= lo <= 0 < hi <= 0xffff_ffff_ffff_ffff,
    ensures
        match r {
            Ok(n) => int_spec(key@, v@, lo as int, hi as int) == Ok::<int, SpecErrV>(n as int) && lo <= n <= hi,
            Err(e) => int_spec(key@, v@, lo as int, hi as int) == Err::<int, SpecErrV>(e@),
        },
{
    match parse_int(v, lo, hi) {
        Err(e) => Err(ChannelSpecError::BadValue(key, int_error_message(e))),
        Ok(n) => Ok(n),
    }
}

impl Acc {
    /// Nothing set yet.
    pub fn new() -> (a: Acc)
        ensures
            a@ == acc_init(),
            acc_wf(a@),
    {
        Acc {
            id: None,
            dev_seen: false,
            out: None,
            grid_str: None,
            swing: SwingConfig { resolution: TBase::T8, amount: 0 },
            offset: 0,
            delay: 0,
            snap: None,
            mode_kw: 0,
            note: None,
            vel: None,
            mch: None,
            accent_every: None,
            accent_note: None,
            accent_vel: None,
            bars: None,
        }
    }

    /// Apply one `key=value` pair.
    pub fn apply(&mut self, k: &String, v: &String) -> (r: Result<(), ChannelSpecError>)
        requires
            acc_wf(old(self)@),
        ensures
            r is Ok ==> acc_wf(final(self)@),
            match r {
                Ok(_) => apply_pair_spec(old(self)@, k@, v@) == Ok::<AccV, SpecErrV>(final(self)@),
                Err(e) => apply_pair_spec(old(self)@, k@, v@) == Err::<AccV, SpecErrV>(e@),
            },
    {
        let kc = chars_of(k.as_str());
        let vc = chars_of(v.as_str());
        if eq_lit(&kc, "id") {
            self.id = Some(v.clone());
        } else if eq_lit(&kc, "dev") {
            if eq_lit(&vc, "midi") {
                self.dev_seen = true;
            } else if eq_lit(&vc, "audio") {
                return Err(ChannelSpecError::AudioDeferred);
            } else {
                return Err(ChannelSpecError::BadValue("dev", v.clone()));
            }
        } else if eq_lit(&kc, "out") {
            self.out = Some(v.clone());
        } else if eq_lit(&kc, "grid") {
            self.grid_str = Some(v.clone());
        } else if eq_lit(&kc, "mode") {
            if eq_lit(&vc, "clock") {
                self.mode_kw = 1;
            } else if eq_lit(&vc, "click") {
                self.mode_kw = 2;
            } else {
                let mut m = String::new();
                push_str(&mut m, "expected `clock` or `click`, got `");
                push_str(&mut m, v.as_str());
                push_str(&mut m, "`");
                assert(m@ =~= mode_err_msg(v@));
                return Err(ChannelSpecError::BadValue("mode", m));
            }
        } else if eq_lit(&kc, "note") {
            let n = note_value("note", vc.as_slice())?;
            self.note = Some(n);
        } else if eq_lit(&kc, "vel") {
            let n = vel_value("vel", vc.as_slice())?;
            self.vel = Some(n);
        } else if eq_lit(&kc, "mch") {
            let c = mch_value(vc.as_slice())?;
            self.mch = Some(c);
        } else if eq_lit(&kc, "accent-every") {
            let n = positive_value("accent-every", vc.as_slice(), 0xffff_ffff)?;
            self.accent_every = Some(n as u32);
        } else if eq_lit(&kc, "accent-note") {
            let n = note_value("accent-note", vc.as_slice())?;
            self.accent_note = Some(n);
        } else if eq_lit(&kc, "accent-vel") {
            let n = vel_value("accent-vel", vc.as_slice())?;
            self.accent_vel = Some(n);
        } else if eq_lit(&kc, "bars") {
            let n = positive_value("bars", vc.as_slice(), 0xffff)?;
            let b = NonZeroU16::new(n as u16);
            match b {
                Some(b) => {
                    self.bars = Some(b);
                },
                None => {
                    return Err(ChannelSpecError::EmptyKey);
                },
            }
        } else if eq_lit(&kc, "swing") {
            let sw = parse_swing(vc.as_slice())?;
            self.swing = sw;
        } else if eq_lit(&kc, "offset") {
            let n = int_value("offset", vc.as_slice(), -0x8000_0000, 0x7fff_ffff)?;
            self.offset = n as i32;
        } else if eq_lit(&kc, "delay") {
            match parse_delay_ms(vc.as_slice()) {
                Ok(us) => {
                    self.delay = us;
                },
                Err(m) => {
                    return Err(ChannelSpecError::BadValue("delay", m));
                },
            }
        } else if eq_lit(&kc, "snap-quantum-us") {
            let n = int_value(
                "snap-quantum-us",
                vc.as_slice(),
                -0x8000_0000_0000_0000,
                0x7fff_ffff_ffff_ffff,
            )?;
            self.snap = Some(n as i64);
        } else {
            return Err(ChannelSpecError::UnknownKey(k.clone()));
        }
        Ok(())
    }
}

fn only_with_click(key: &'static str) -> (e: ChannelSpecError)
    ensures
        e@ == SpecErrV::BadValue(key@, "only valid with mode=click"@),
{
    let mut m = String::new();
    push_str(&mut m, "only valid with mode=click");
    ChannelSpecError::BadValue(key, m)
}

/// Assemble the MIDI role from the accumulated keys.
pub fn build_role(a: &Acc) -> (r: Result<MidiRole, ChannelSpecError>)
    requires
        acc_wf(a@),
    ensures
        match r {
            Ok(m) => role_spec(a@) == Ok::<MidiRole, SpecErrV>(m),
            Err(e) => role_spec(a@) == Err::<MidiRole, SpecErrV>(e@),
        },
{
    if a.mode_kw != 2 {
        if a.note.is_some() {
            return Err(only_with_click("note"));
        }
        if a.vel.is_some() {
            return Err(only_with_click("vel"));
        }
        if a.mch.is_some() {
            return Err(only_with_click("mch"));
        }
        if a.accent_every.is_some() {
            return Err(only_with_click("accent-every"));
        }
        if a.accent_note.is_some() {
            return Err(only_with_click("accent-note"));
        }
        if a.accent_vel.is_some() {
            return Err(only_with_click("accent-vel"));
        }
        return Ok(MidiRole::Clock);
    }
    let note = match a.note {
        Some(n) => n,
        None => {
            return Err(ChannelSpecError::MissingKey("note"));
        },
    };
    let vel = match a.vel {
        Some(n) => n,
        None => {
            return Err(ChannelSpecError::MissingKey("vel"));
        },
    };
    let ch = match a.mch {
        Some(c) => c,
        None => U4(9),
    };
    match a.accent_every {
        Some(e) => {
            let av = match a.accent_vel {
                Some(x) => x,
                None => {
                    return Err(ChannelSpecError::MissingKey("accent-vel"));
                },
            };
            let an = match a.accent_note {
                Some(x) => x,
                None => note,
            };
            let every = match NonZeroU32::new(e) {
                Some(x) => x,
                None => {
                    return Err(ChannelSpecError::EmptyKey);
                },
            };
            Ok(MidiRole::Click(MidiClickConfig { note, vel, ch, accent: Some(MidiClickAccent { every, note: an, vel: av }) }))
        },
        None => {
            if a.accent_vel.is_some() || a.accent_note.is_some() {
                let mut m = String::new();
                push_str(&mut m, "required when accent-vel or accent-note is set");
                return Err(ChannelSpecError::BadValue("accent-every", m));
            }
            Ok(MidiRole::Click(MidiClickConfig { note, vel, ch, accent: None }))
        },
    }
}

impl ChannelSpec {
    /// Parse a `key=value[,key=value]*` spec. The `grid=` expression
    /// may name the channels in `env`.
    pub fn parse(s: &str, env: &[(String, Grid)]) -> (r: Result<ChannelSpec, ChannelSpecError>)
        ensures
            match r {
                Ok(spec) => channel_spec_of(s@, env_view(env@)) == Ok::<ChannelSpecV, SpecErrV>(
                    spec@,
                ),
                Err(e) => channel_spec_of(s@, env_view(env@)) == Err::<ChannelSpecV, SpecErrV>(
                    e@,
                ),
            },
    {
        let pairs = tokenize(s)?;
        let ghost pv = pairs_view(pairs@);
        let mut acc = Acc::new();
        let mut i: usize = 0;
        while i < pairs.len()
            invariant
                0 <= i <= pairs@.len(),
                pv == pairs_view(pairs@),
                tokenize_spec(s@) == Ok::<Seq<(Seq<char>, Seq<char>)>, SpecErrV>(pv),
                acc_wf(acc@),
                apply_all(acc_init(), pv, 0) == apply_all(acc@, pv, i as nat),
            decreases pairs.len() - i,
        {
            acc.apply(&pairs[i].0, &pairs[i].1)?;
            i += 1;
        }
        let parsed = match &acc.grid_str {
            Some(g) => crate::dsl::parse(g.as_str(), env),
            None => crate::dsl::parse("T4", env),
        };
        let grid = match parsed {
            Ok(g) => g,
            Err(e) => {
                return Err(ChannelSpecError::BadValue("grid", e.to_string()));
            },
        };
        let mode = build_role(&acc)?;
        if !acc.dev_seen {
            return Err(ChannelSpecError::MissingKey("dev"));
        }
        proof {
            match acc.bars {
                Some(b) => {
                    lemma_nz_value(b.value(), 0);
                    crate::nonzero::lemma_nonzero_u16_value_injective(b, nz16(b.value()));
                },
                None => {},
            }
        }
        let spec = ChannelSpec {
            id: acc.id,
            out: acc.out,
            grid,
            mode,
            swing: acc.swing,
            offset_ticks: acc.offset,
            delay: Micro(acc.delay),
            snap_to_quantum_micro: acc.snap,
            bars: acc.bars,
        };
        Ok(spec)
    }
}

/// Whether some entry of `env` is named `id`.
pub open spec fn env_has(env: Seq<(Seq<char>, Grid)>, id: Seq<char>) -> bool {
    exists|j: int| 0 <= j < env.len() && env[j].0 == id
}

/// The identifier of the `i`-th spec (from 0): its `id`, or `C{i+1}`.
pub open spec fn channel_id(spec: ChannelSpecV, i: nat) -> Seq<char> {
    match spec.id {
        Some(id) => id,
        None => seq!['C'] + nat_decimal(i + 1),
    }
}

/// The message for an identifier that names a grid.
pub open spec fn grid_literal_msg(id: Seq<char>) -> Seq<char> {
    "`"@ + id + "` is a grid literal and cannot be used as a channel ID"@
}

/// The message for a repeated identifier.
pub open spec fn duplicate_msg(id: Seq<char>) -> Seq<char> {
    "duplicate channel ID `"@ + id + "`"@
}

/// Parse `specs[i..]` in order, each against the grids of the channels
/// before it, appending `(id, spec)` pairs to `acc`.
pub open spec fn channels_from(
    specs: Seq<Seq<char>>,
    i: nat,
    env: Seq<(Seq<char>, Grid)>,
    acc: Seq<(Seq<char>, ChannelSpecV)>,
) -> Result<Seq<(Seq<char>, ChannelSpecV)>, SpecErrV>
    decreases specs.len() - i,
{
    if i >= specs.len() {
        Ok(acc)
    } else {
        match channel_spec_of(specs[i as int], env) {
            Err(e) => Err(e),
            Ok(spec) => {
                let id = channel_id(spec, i);
                if crate::notation::grid_from_name(id) is Some {
                    Err(SpecErrV::BadValue("id"@, grid_literal_msg(id)))
                } else if env_has(env, id) {
                    Err(SpecErrV::BadValue("id"@, duplicate_msg(id)))
                } else {
                    channels_from(specs, i + 1, env.push((id, spec.grid)), acc.push((id, spec)))
                }
            },
        }
    }
}

/// The views of parsed channels.
pub open spec fn channels_view(v: Seq<(String, ChannelSpec)>) -> Seq<(Seq<char>, ChannelSpecV)> {
    v.map_values(|x: (String, ChannelSpec)| (x.0@, x.1@))
}

/// Parse a list of specs in order, each against the grids of the
/// channels before it; unnamed channels are called `C1`, `C2`, ...
/// Identifiers must not name a grid and must not repeat.
pub fn parse_channels(specs: &[String]) -> (r: Result<Vec<(String, ChannelSpec)>, ChannelSpecError>)
    requires
        specs@.len() < u64::MAX,
    ensures
        match r {
            Ok(v) => channels_from(specs@.map_values(|s: String| s@), 0, Seq::empty(), Seq::empty())
                == Ok::<Seq<(Seq<char>, ChannelSpecV)>, SpecErrV>(channels_view(v@)),
            Err(e) => channels_from(specs@.map_values(|s: String| s@), 0, Seq::empty(), Seq::empty())
                == Err::<Seq<(Seq<char>, ChannelSpecV)>, SpecErrV>(e@),
        },
{
    let ghost sv = specs@.map_values(|s: String| s@);
    let mut env: Vec<(String, Grid)> = Vec::new();
    let mut result: Vec<(String, ChannelSpec)> = Vec::new();
    let mut i: usize = 0;
    assert(env_view(env@) =~= Seq::<(Seq<char>, Grid)>::empty());
    assert(channels_view(result@) =~= Seq::<(Seq<char>, ChannelSpecV)>::empty());
    while i < specs.len()
        invariant
            0 <= i <= specs@.len(),
            specs@.len() < u64::MAX,
            sv == specs@.map_values(|s: String| s@),
            channels_from(sv, 0, Seq::empty(), Seq::empty()) == channels_from(
                sv,
                i as nat,
                env_view(env@),
                channels_view(result@),
            ),
        decreases specs.len() - i,
    {
        assert(sv[i as int] == specs@[i as int]@);
        let spec = ChannelSpec::parse(specs[i].as_str(), env.as_slice())?;
        let id = match &spec.id {
            Some(x) => x.clone(),
            None => {
                let mut t = String::new();
                crate::text::push_char(&mut t, 'C');
                push_u64(&mut t, (i + 1) as u64);
                assert(t@ =~= seq!['C'] + nat_decimal((i + 1) as nat));
                t
            },
        };
        assert(id@ == channel_id(spec@, i as nat));
        let idc = chars_of(id.as_str());
        if Grid::from_name(idc.as_slice()).is_some() {
            let mut m = String::new();
            push_str(&mut m, "`");
            push_str(&mut m, id.as_str());
            push_str(&mut m, "` is a grid literal and cannot be used as a channel ID");
            assert(m@ =~= grid_literal_msg(id@));
            return Err(ChannelSpecError::BadValue("id", m));
        }
        let mut j: usize = 0;
        let mut dup = false;
        while j < env.len()
            invariant
                0 <= j <= env@.len(),
                !dup ==> forall|k: int| 0 <= k < j ==> env_view(env@)[k].0 != id@,
                dup ==> env_has(env_view(env@), id@),
            decreases env.len() - j,
        {
            if env[j].0 == id {
                assert(env_view(env@)[j as int].0 == id@);
                dup = true;
            }
            j += 1;
        }
        if dup {
            let mut m = String::new();
            push_str(&mut m, "duplicate channel ID `");
            push_str(&mut m, id.as_str());
            push_str(&mut m, "`");
            assert(m@ =~= duplicate_msg(id@));
            return Err(ChannelSpecError::BadValue("id", m));
        }
        assert(!env_has(env_view(env@), id@));
        let ghost ev = env_view(env@);
        let ghost rv = channels_view(result@);
        env.push((id.clone(), spec.grid));
        result.push((id, spec));
        assert(env_view(env@) =~= ev.push((env@[env@.len() - 1].0@, env@[env@.len() - 1].1)));
        assert(channels_view(result@) =~= rv.push((result@[result@.len() - 1].0@, result@[result@.len() - 1].1@)));
        i += 1;
    }
    Ok(result)
}

} // verus!
