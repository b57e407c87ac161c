//! Per-buffer scheduling: the events of a channel whose samples fall in
//! one audio buffer's half-open window.

use vstd::prelude::*;
use crate::channel::role::ChannelCommon;
use crate::channel::transform::{
    delay_in_samples, delay_samples, event_of, land, landing_sample, micro_to_samples,
    offset_samples, on_divider, pipeline_ok, sat_add, ScheduledEvent,
};
use crate::fxp::sat_i128_u64;
use crate::sample_tick::{stc_ceil, stc_floor, SampleTickConn};
use crate::swing::{effective_tick, swung_tick};
use crate::time::{grid_ticks, Tick};

verus! {

/// An upper bound on the events one buffer of `frames` samples can
/// hold: one per sample plus slack for swing at the window's edges.
pub fn max_events_for_buffer(frames: usize) -> (n: usize)
    requires
        frames <= usize::MAX - 16,
    ensures
        n == frames + 16,
{
    frames + 16
}

/// `x` clamped to the `u64` range.
pub open spec fn clamp_u64(x: int) -> int {
    if x < 0 {
        0
    } else if x > u64::MAX {
        u64::MAX as int
    } else {
        x
    }
}

/// The exclusive end of the window starting at `start`.
pub open spec fn window_end(start: u64, frames: usize) -> int {
    sat_add(start as int, frames as int)
}

/// The first master tick the scheduler examines: the tick at or before
/// the window's start, moved back by the samples of delay and offset,
/// widened by a negative swing.
pub open spec fn first_tick(common: ChannelCommon, c: SampleTickConn, start: u64) -> int {
    let delta = delay_samples(common, c.sr_of() as int) + offset_samples(common, c.sr_of() as int);
    let lo = clamp_u64(start - delta);
    let d = -(common.shuffle.amount as int);
    clamp_u64(stc_floor(c.sr_of(), c.bpm_of(), c.ppqn_of(), lo as nat) + if d < 0 {
        d
    } else {
        0
    })
}

/// The last master tick the scheduler examines: the tick at or after
/// the window's end, moved back by delay and offset, widened by a
/// positive swing.
pub open spec fn last_tick(common: ChannelCommon, c: SampleTickConn, start: u64, frames: usize) -> int {
    let delta = delay_samples(common, c.sr_of() as int) + offset_samples(common, c.sr_of() as int);
    let hi = clamp_u64(window_end(start, frames) - delta);
    let d = -(common.shuffle.amount as int);
    clamp_u64(stc_ceil(c.sr_of(), c.bpm_of(), c.ppqn_of(), hi as nat) + if d > 0 {
        d
    } else {
        0
    })
}

/// Whether master tick `t` produces an event inside `[start, end)`.
pub open spec fn lands_in(common: ChannelCommon, c: SampleTickConn, t: nat, start: int, end: int) -> bool {
    &&& on_divider(common, t)
    &&& start <= landing_sample(common, c, swung_tick(common.shuffle, t)) < end
}

/// The events of master ticks `lo .. lo + n` that land in
/// `[start, end)`, in tick order.
pub open spec fn window_events(
    common: ChannelCommon,
    c: SampleTickConn,
    start: int,
    end: int,
    lo: nat,
    n: nat,
) -> Seq<ScheduledEvent>
    decreases n,
{
    if n == 0 {
        Seq::empty()
    } else {
        let rest = window_events(common, c, start, end, lo, (n - 1) as nat);
        let t = (lo + n - 1) as nat;
        if lands_in(common, c, t, start, end) {
            rest.push(event_of(common, c, t))
        } else {
            rest
        }
    }
}

/// The events of one buffer window: those of the ticks from
/// [`first_tick`] to [`last_tick`] that land in the window.
pub open spec fn buffer_events(common: ChannelCommon, c: SampleTickConn, start: u64, frames: usize) -> Seq<
    ScheduledEvent,
> {
    let lo = first_tick(common, c, start);
    let hi = last_tick(common, c, start, frames);
    if frames == 0 || lo > hi {
        Seq::empty()
    } else {
        window_events(
            common,
            c,
            start as int,
            window_end(start, frames),
            lo as nat,
            (hi - lo + 1) as nat,
        )
    }
}

/// The events of one buffer, in a fresh vector.
pub fn tick_stream(common: &ChannelCommon, stc: &SampleTickConn, buffer_start_sample: u64, frames: usize) -> (r: Vec<
    ScheduledEvent,
>)
    requires
        pipeline_ok(*common, *stc),
    ensures
        r@ == buffer_events(*common, *stc, buffer_start_sample, frames),
{
    let mut buf: Vec<ScheduledEvent> = Vec::new();
    tick_stream_into(&mut buf, common, stc, buffer_start_sample, frames);
    assert(buf@ =~= buffer_events(*common, *stc, buffer_start_sample, frames));
    buf
}

/// Append the events of one buffer window to `buf` (which is not
/// cleared first).
pub fn tick_stream_into(
    buf: &mut Vec<ScheduledEvent>,
    common: &ChannelCommon,
    stc: &SampleTickConn,
    buffer_start_sample: u64,
    frames: usize,
)
    requires
        pipeline_ok(*common, *stc),
    ensures
        final(buf)@ == old(buf)@ + buffer_events(*common, *stc, buffer_start_sample, frames),
{
    if frames == 0 {
        assert(old(buf)@ + Seq::<ScheduledEvent>::empty() =~= old(buf)@);
        return;
    }
    let ghost c = *stc;
    let ghost cm = *common;
    let buffer_end = buffer_start_sample.saturating_add(frames as u64);
    let delay = delay_in_samples(common, stc);
    let offset = micro_to_samples(common.offset, stc.sr());
    proof {
        assert(delay <= u64::MAX);
    }
    let delta: i128 = delay as i128 + offset as i128;
    let swung_lo = sat_i128_u64(buffer_start_sample as i128 - delta);
    let swung_hi = sat_i128_u64(buffer_end as i128 - delta);
    let swing_d: i128 = -(common.shuffle.amount as i128);
    let lo_from = stc.floor(swung_lo).0 as i128;
    let hi_from = stc.ceil(swung_hi).0 as i128;
    let lo_tick = sat_i128_u64(lo_from + if swing_d < 0 {
        swing_d
    } else {
        0
    });
    let hi_tick = sat_i128_u64(hi_from + if swing_d > 0 {
        swing_d
    } else {
        0
    });
    assert(lo_tick == first_tick(cm, c, buffer_start_sample));
    assert(hi_tick == last_tick(cm, c, buffer_start_sample, frames));
    if lo_tick > hi_tick {
        assert(old(buf)@ + Seq::<ScheduledEvent>::empty() =~= old(buf)@);
        return;
    }
    let divisor = common.divider.tick_count() as u64;
    let ghost end = window_end(buffer_start_sample, frames);
    let mut t: u64 = lo_tick;
    assert(buf@ =~= old(buf)@ + window_events(cm, c, buffer_start_sample as int, end, lo_tick as nat, 0));
    loop
        invariant
            lo_tick <= t <= hi_tick,
            divisor as nat == grid_ticks(common.divider),
            divisor > 0,
            delay == delay_samples(*common, stc.sr_of() as int),
            offset == offset_samples(*common, stc.sr_of() as int),
            buffer_end == end,
            end == window_end(buffer_start_sample, frames),
            cm == *common,
            c == *stc,
            frames != 0,
            lo_tick == first_tick(cm, c, buffer_start_sample),
            hi_tick == last_tick(cm, c, buffer_start_sample, frames),
            buf@ == old(buf)@ + window_events(
                cm,
                c,
                buffer_start_sample as int,
                end,
                lo_tick as nat,
                (t - lo_tick) as nat,
            ),
        decreases hi_tick - t,
    {
        let tick = Tick(t);
        if t % divisor == 0 {
            let swung = effective_tick(&common.shuffle, tick);
            let sample = land(common, stc, swung, delay, offset);
            if sample >= buffer_start_sample && sample < buffer_end {
                buf.push(ScheduledEvent { sample_index: sample, tick: swung });
            }
        }
        proof {
            assert(window_events(cm, c, buffer_start_sample as int, end, lo_tick as nat, (t + 1 - lo_tick) as nat)
                == {
                let rest = window_events(cm, c, buffer_start_sample as int, end, lo_tick as nat, (t - lo_tick) as nat);
                if lands_in(cm, c, t as nat, buffer_start_sample as int, end) {
                    rest.push(event_of(cm, c, t as nat))
                } else {
                    rest
                }
            });
        }
        if t == hi_tick {
            assert(buf@ =~= old(buf)@ + buffer_events(cm, c, buffer_start_sample, frames));
            return;
        }
        t += 1;
    }
}

/// Every event of a buffer window lands inside the window and comes
/// from a master tick on the channel's divider grid.
pub proof fn lemma_window_events_in_window(
    common: ChannelCommon,
    c: SampleTickConn,
    start: int,
    end: int,
    lo: nat,
    n: nat,
)
    ensures
        forall|i: int|
            0 <= i < window_events(common, c, start, end, lo, n).len() ==> start
                <= #[trigger] window_events(common, c, start, end, lo, n)[i].sample_index < end,
    decreases n,
{
    if n > 0 {
        lemma_window_events_in_window(common, c, start, end, lo, (n - 1) as nat);
        let rest = window_events(common, c, start, end, lo, (n - 1) as nat);
        let t = (lo + n - 1) as nat;
        if lands_in(common, c, t, start, end) {
            let s = landing_sample(common, c, swung_tick(common.shuffle, t));
            assert(0 <= s <= u64::MAX) by {
                lemma_landing_in_u64(common, c, swung_tick(common.shuffle, t));
            }
            let all = rest.push(event_of(common, c, t));
            assert forall|i: int| 0 <= i < all.len() implies start <= #[trigger] all[i].sample_index < end by {
                if i < rest.len() {
                    assert(all[i] == rest[i]);
                }
            }
        }
    }
}

/// Landing samples stay within `u64`.
pub proof fn lemma_landing_in_u64(common: ChannelCommon, c: SampleTickConn, swung: nat)
    ensures
        0 <= landing_sample(common, c, swung) <= u64::MAX,
{
    let base = crate::sample_tick::stc_inner(c.sr_of(), c.bpm_of(), c.ppqn_of(), swung);
    assert(base <= u64::MAX) by {
        reveal_stc_inner_bound(c.sr_of(), c.bpm_of(), c.ppqn_of(), swung);
    }
}

proof fn reveal_stc_inner_bound(sr: nat, bpm: nat, ppqn: nat, tick: nat)
    ensures
        crate::sample_tick::stc_inner(sr, bpm, ppqn, tick) <= u64::MAX,
{
}

} // verus!
