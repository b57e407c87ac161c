//! Channels (sum-typed by routing target) and the pure per-channel
//! pipeline: divide, swing, tick to sample, delay, offset.

use vstd::prelude::*;
use crate::channel::role::{ChannelCommon, CvRole, DinRole, MidiRole};
use crate::fxp::{pico_samples, pico_to_samples, supported_rate, FixConn, Micro, Pico, FD12};
use crate::sample_tick::{stc_inner, SampleTickConn};
use crate::swing::{effective_tick, swung_tick};
use crate::time::{grid_ticks, Tick};

verus! {

/// The largest delay, in microseconds (300 ms); larger delays saturate.
pub const MAX_DELAY_US: i64 = 300_000;

/// The largest delay (300 ms).
pub fn max_delay() -> (m: Micro)
    ensures
        m.0 == MAX_DELAY_US,
{
    Micro(MAX_DELAY_US)
}

/// A channel: the shared fields plus a role for its routing target.
#[derive(Copy, Clone, Debug)]
pub enum Channel {
    Midi { common: ChannelCommon, role: MidiRole },
    Din { common: ChannelCommon, role: DinRole },
    Cv { common: ChannelCommon, role: CvRole },
}

/// The shared fields of a channel, whatever its target.
pub open spec fn common_of(c: Channel) -> ChannelCommon {
    match c {
        Channel::Midi { common, .. } => common,
        Channel::Din { common, .. } => common,
        Channel::Cv { common, .. } => common,
    }
}

/// The channel with its shared fields replaced by `common`.
pub open spec fn with_common(c: Channel, common: ChannelCommon) -> Channel {
    match c {
        Channel::Midi { role, .. } => Channel::Midi { common, role },
        Channel::Din { role, .. } => Channel::Din { common, role },
        Channel::Cv { role, .. } => Channel::Cv { common, role },
    }
}

impl Channel {
    /// The shared fields.
    pub fn common(&self) -> (c: &ChannelCommon)
        ensures
            *c == common_of(*self),
    {
        match self {
            Channel::Midi { common, .. } => common,
            Channel::Din { common, .. } => common,
            Channel::Cv { common, .. } => common,
        }
    }

    /// The shared fields, mutably; the role is unchanged.
    pub fn common_mut(&mut self) -> (c: &mut ChannelCommon)
        ensures
            *c == common_of(*old(self)),
            *final(self) == with_common(*old(self), *final(c)),
    {
        match self {
            Channel::Midi { common, .. } => common,
            Channel::Din { common, .. } => common,
            Channel::Cv { common, .. } => common,
        }
    }
}

/// An event a master tick produces: where it lands and the tick after
/// swing.
#[derive(Copy, Clone, Debug, Eq, PartialEq, Structural, Hash)]
pub struct ScheduledEvent {
    pub sample_index: u64,
    pub tick: Tick,
}

/// Whole samples in `m` microseconds at rate `sr`.
pub open spec fn micro_samples(m: int, sr: int) -> int {
    pico_samples(m * 1_000_000, sr)
}

/// Microsecond values whose picosecond form fits in `i64`.
pub open spec fn micro_fits(m: i64) -> bool {
    i64::MIN <= m * 1_000_000 <= i64::MAX
}

/// Convert microseconds to whole samples at a supported rate: embed in
/// picoseconds, then round to the sample grid.
pub fn micro_to_samples(m: Micro, sr: u32) -> (r: i64)
    requires
        supported_rate(sr),
        micro_fits(m.0),
    ensures
        r == micro_samples(m.0 as int, sr as int),
{
    let c = FixConn::fd12_fd06();
    let pico: Pico = FD12(c.inner(m.0));
    match pico_to_samples(pico, sr) {
        Some(n) => n,
        None => 0,
    }
}

/// `x` clamped to `[lo, hi]`.
pub open spec fn clamp_int(x: int, lo: int, hi: int) -> int {
    if x < lo {
        lo
    } else if x > hi {
        hi
    } else {
        x
    }
}

/// `a + b` saturated at `u64::MAX`.
pub open spec fn sat_add(a: int, b: int) -> int {
    if a + b > u64::MAX {
        u64::MAX as int
    } else {
        a + b
    }
}

/// `a - b` saturated at 0.
pub open spec fn sat_sub(a: int, b: int) -> int {
    if a - b < 0 {
        0
    } else {
        a - b
    }
}

/// The channel's delay in samples: the delay clamped to `[0, 300 ms]`,
/// converted, and never negative.
pub open spec fn delay_samples(common: ChannelCommon, sr: int) -> int {
    let d = micro_samples(clamp_int(common.delay.0 as int, 0, MAX_DELAY_US as int), sr);
    if d < 0 {
        0
    } else {
        d
    }
}

/// The channel's offset in samples (signed).
pub open spec fn offset_samples(common: ChannelCommon, sr: int) -> int {
    micro_samples(common.offset.0 as int, sr)
}

/// The sample an already swung tick lands on for this channel: its
/// sample, plus the delay, plus or minus the offset, each step
/// saturating within `u64`.
pub open spec fn landing_sample(common: ChannelCommon, c: SampleTickConn, swung: nat) -> int {
    let base = stc_inner(c.sr_of(), c.bpm_of(), c.ppqn_of(), swung);
    let with_delay = sat_add(base as int, delay_samples(common, c.sr_of() as int));
    let off = offset_samples(common, c.sr_of() as int);
    if off >= 0 {
        sat_add(with_delay, off)
    } else {
        sat_sub(with_delay, -off)
    }
}

/// The event a master tick produces on a channel.
pub open spec fn event_of(common: ChannelCommon, c: SampleTickConn, t: nat) -> ScheduledEvent {
    let swung = swung_tick(common.shuffle, t);
    ScheduledEvent {
        sample_index: landing_sample(common, c, swung) as u64,
        tick: Tick(swung as u64),
    }
}

/// Whether a master tick lies on the channel's divider grid.
pub open spec fn on_divider(common: ChannelCommon, t: nat) -> bool {
    t % grid_ticks(common.divider) == 0
}

/// The events of a master tick sequence: ticks off the divider grid
/// are dropped, the rest map to their events, in order.
pub open spec fn transform_spec(ticks: Seq<Tick>, common: ChannelCommon, c: SampleTickConn) -> Seq<
    ScheduledEvent,
>
    decreases ticks.len(),
{
    if ticks.len() == 0 {
        Seq::empty()
    } else {
        let rest = transform_spec(ticks.drop_last(), common, c);
        let t = ticks.last().0 as nat;
        if on_divider(common, t) {
            rest.push(event_of(common, c, t))
        } else {
            rest
        }
    }
}

/// The preconditions of the pipeline: a supported sample rate and an
/// offset whose picosecond form fits in `i64`.
pub open spec fn pipeline_ok(common: ChannelCommon, c: SampleTickConn) -> bool {
    supported_rate(c.sr_of() as u32) && micro_fits(common.offset.0)
}

/// The channel's delay in samples.
pub fn delay_in_samples(common: &ChannelCommon, stc: &SampleTickConn) -> (d: u64)
    requires
        supported_rate(stc.sr_of() as u32),
    ensures
        d == delay_samples(*common, stc.sr_of() as int),
{
    let sr = stc.sr();
    let raw = common.delay.0;
    let clamped = if raw < 0 {
        0
    } else if raw > MAX_DELAY_US {
        MAX_DELAY_US
    } else {
        raw
    };
    let s = micro_to_samples(Micro(clamped), sr);
    if s < 0 {
        0
    } else {
        s as u64
    }
}

/// The sample an already swung tick lands on.
pub fn land(common: &ChannelCommon, stc: &SampleTickConn, swung: Tick, delay: u64, offset: i64) -> (s: u64)
    requires
        delay == delay_samples(*common, stc.sr_of() as int),
        offset == offset_samples(*common, stc.sr_of() as int),
    ensures
        s == landing_sample(*common, *stc, swung.0 as nat),
{
    let base = stc.inner(swung);
    let with_delay = base.saturating_add(delay);
    if offset >= 0 {
        with_delay.saturating_add(offset as u64)
    } else {
        let back: u64 = if offset == i64::MIN {
            0x8000_0000_0000_0000u64
        } else {
            (-offset) as u64
        };
        with_delay.saturating_sub(back)
    }
}

/// Run the divide, swing, sample, delay and offset stages over a master
/// tick sequence. Output order follows input order.
pub fn transform(master_ticks: &[Tick], common: &ChannelCommon, stc: &SampleTickConn) -> (r: Vec<
    ScheduledEvent,
>)
    requires
        pipeline_ok(*common, *stc),
    ensures
        r@ == transform_spec(master_ticks@, *common, *stc),
{
    let divisor = common.divider.tick_count() as u64;
    let delay = delay_in_samples(common, stc);
    let offset = micro_to_samples(common.offset, stc.sr());
    let mut out: Vec<ScheduledEvent> = Vec::new();
    let mut i: usize = 0;
    while i < master_ticks.len()
        invariant
            0 <= i <= master_ticks@.len(),
            divisor as nat == grid_ticks(common.divider),
            divisor > 0,
            delay == delay_samples(*common, stc.sr_of() as int),
            offset == offset_samples(*common, stc.sr_of() as int),
            out@ == transform_spec(master_ticks@.subrange(0, i as int), *common, *stc),
        decreases master_ticks.len() - i,
    {
        let t = master_ticks[i];
        proof {
            let s = master_ticks@.subrange(0, i + 1);
            assert(s.drop_last() =~= master_ticks@.subrange(0, i as int));
            assert(s.last() == t);
        }
        if t.0 % divisor == 0 {
            let swung = effective_tick(&common.shuffle, t);
            let sample = land(common, stc, swung, delay, offset);
            out.push(ScheduledEvent { sample_index: sample, tick: swung });
        }
        i += 1;
    }
    assert(master_ticks@.subrange(0, i as int) =~= master_ticks@);
    out
}

} // verus!
