//! Laws of the bar multiplier: thinning each buffer's events with a
//! counter carried from one buffer to the next keeps every `N`-th event
//! of the whole run, counted from its first event, as if the run were
//! one buffer.

use vstd::prelude::*;
use crate::buffer_laws::{buffers_events, lemma_buffers_partition_many};
use crate::channel::role::{ChannelCommon, MidiRole};
use crate::channel::transform::{offset_samples, Channel, ScheduledEvent};
use crate::event::{buffer_events, window_events};
use crate::out_midi::{
    click_msgs, clock_msgs, counter_after, lemma_click_msgs_split, lemma_counter_after_add, Sent,
};
use crate::sample_tick::SampleTickConn;
use crate::time::grid_ticks;
use crate::transport::{
    bar_filter, buffer_step, bytes_msgs, channel_render, render_upto, transport_phase, PlayheadV,
};

verus! {

/// Every `m`-th item, counting from zero: the items whose index is a
/// multiple of `m`, in order.
pub open spec fn every_nth(s: Seq<ScheduledEvent>, m: nat) -> Seq<ScheduledEvent>
    decreases s.len(),
{
    if s.len() == 0 {
        Seq::empty()
    } else {
        let rest = every_nth(s.drop_last(), m);
        if (s.len() - 1) % (m as int) == 0 {
            rest.push(s.last())
        } else {
            rest
        }
    }
}

/// The events a channel keeps of one buffer's events, its bar counter
/// at `bar`.
pub open spec fn kept_events(common: ChannelCommon, evs: Seq<ScheduledEvent>, bar: u32) -> Seq<
    ScheduledEvent,
> {
    match common.bar_multiplier {
        Some(m) => bar_filter(evs, bar, m.value() as u32),
        None => evs,
    }
}

/// The bar counter after one buffer's events.
pub open spec fn bar_after(common: ChannelCommon, evs: Seq<ScheduledEvent>, bar: u32) -> u32 {
    match common.bar_multiplier {
        Some(m) => counter_after(bar, evs.len()),
        None => bar,
    }
}

/// The events a channel keeps over `k` consecutive buffers of `n`
/// samples from `s`, its bar counter carried across, and the counter
/// after.
pub open spec fn kept_run(common: ChannelCommon, c: SampleTickConn, s: u64, n: usize, k: nat, bar: u32) -> (
    Seq<ScheduledEvent>,
    u32,
)
    decreases k,
{
    if k == 0 {
        (Seq::empty(), bar)
    } else {
        let (prev, b) = kept_run(common, c, s, n, (k - 1) as nat, bar);
        let evs = buffer_events(common, c, (s + (k - 1) * n) as u64, n);
        (prev + kept_events(common, evs, b), bar_after(common, evs, b))
    }
}

/// The messages one channel sends over `k` consecutive buffers of `n`
/// samples from `s` while the transport runs, its bar and click counters
/// carried from buffer to buffer as the playhead carries them, and the
/// counters after.
pub open spec fn channel_run(
    ch: Channel,
    c: SampleTickConn,
    s: u64,
    n: usize,
    k: nat,
    bar: u32,
    click: u32,
) -> (Seq<Sent>, u32, u32)
    decreases k,
{
    if k == 0 {
        (Seq::empty(), bar, click)
    } else {
        let (prev, b, cl) = channel_run(ch, c, s, n, (k - 1) as nat, bar, click);
        let (msgs, b2, cl2) = channel_render(ch, c, (s + (k - 1) * n) as u64, n, b, cl);
        (prev + msgs, b2, cl2)
    }
}

/// What a MIDI role sends for a run of events, its clicks numbered from
/// `click`.
pub open spec fn role_msgs(role: MidiRole, evs: Seq<ScheduledEvent>, click: u32) -> Seq<Sent> {
    match role {
        MidiRole::Clock => clock_msgs(evs),
        MidiRole::Click(cfg) => click_msgs(cfg, evs, click),
        MidiRole::Cc(_) => Seq::empty(),
    }
}

/// A MIDI role's click counter after a run of `k` events.
pub open spec fn role_click(role: MidiRole, click: u32, k: nat) -> u32 {
    match role {
        MidiRole::Click(_) => counter_after(click, k),
        _ => click,
    }
}

/// Thinning two runs one after the other, the second counted on from
/// where the first stopped, thins the joined run.
pub proof fn lemma_bar_filter_split(a: Seq<ScheduledEvent>, b: Seq<ScheduledEvent>, c: u32, m: u32)
    ensures
        bar_filter(a + b, c, m) == bar_filter(a, c, m) + bar_filter(b, counter_after(c, a.len()), m),
    decreases b.len(),
{
    if b.len() == 0 {
        assert(a + b =~= a);
        assert(bar_filter(a, c, m) + Seq::<ScheduledEvent>::empty() =~= bar_filter(a, c, m));
    } else {
        let b1 = b.drop_last();
        lemma_bar_filter_split(a, b1, c, m);
        assert((a + b).drop_last() =~= a + b1);
        assert((a + b).last() == b.last());
        lemma_counter_after_add(c, a.len(), b1.len());
        assert(bar_filter(a + b, c, m) =~= bar_filter(a, c, m) + bar_filter(b, counter_after(c, a.len()), m));
    }
}

/// Counted from zero, the bar filter keeps the events whose index is a
/// multiple of `m`, as long as the counter does not wrap.
pub proof fn lemma_bar_filter_from_zero(s: Seq<ScheduledEvent>, m: u32)
    requires
        s.len() <= 0x1_0000_0000,
    ensures
        bar_filter(s, 0, m) == every_nth(s, m as nat),
    decreases s.len(),
{
    if s.len() > 0 {
        lemma_bar_filter_from_zero(s.drop_last(), m);
        let i = s.len() - 1;
        assert(counter_after(0, i as nat) == i) by {
            vstd::arithmetic::div_mod::lemma_small_mod(i as nat, 0x1_0000_0000);
        }
    }
}

/// Over consecutive buffers, the events a channel keeps are its bar
/// filter over the buffers' events joined, and the counter advances
/// once per event.
proof fn lemma_kept_run(common: ChannelCommon, c: SampleTickConn, s: u64, n: usize, k: nat, bar: u32)
    ensures
        kept_run(common, c, s, n, k, bar).0 == kept_events(common, buffers_events(common, c, s, n, k), bar),
        kept_run(common, c, s, n, k, bar).1 == bar_after(common, buffers_events(common, c, s, n, k), bar),
    decreases k,
{
    if k > 0 {
        let j = (k - 1) as nat;
        lemma_kept_run(common, c, s, n, j, bar);
        let a = buffers_events(common, c, s, n, j);
        let evs = buffer_events(common, c, (s + j * n) as u64, n);
        assert(buffers_events(common, c, s, n, k) == a + evs);
        match common.bar_multiplier {
            Some(m) => {
                lemma_bar_filter_split(a, evs, bar, m.value() as u32);
                lemma_counter_after_add(bar, a.len(), evs.len());
            },
            None => {
                assert(kept_events(common, a, bar) + kept_events(common, evs, bar) =~= a + evs);
            },
        }
    }
}

/// A MIDI role's messages for two runs, the second's clicks numbered on
/// from the first's, are its messages for the joined run.
proof fn lemma_role_msgs_split(role: MidiRole, a: Seq<ScheduledEvent>, b: Seq<ScheduledEvent>, click: u32)
    ensures
        role_msgs(role, a, click) + role_msgs(role, b, role_click(role, click, a.len())) == role_msgs(
            role,
            a + b,
            click,
        ),
        role_click(role, role_click(role, click, a.len()), b.len()) == role_click(role, click, (a + b).len()),
{
    match role {
        MidiRole::Clock => {
            assert(clock_msgs(a) + clock_msgs(b) =~= clock_msgs(a + b));
        },
        MidiRole::Click(cfg) => {
            lemma_click_msgs_split(cfg, a, b, click);
        },
        MidiRole::Cc(_) => {
            assert(Seq::<Sent>::empty() + Seq::<Sent>::empty() =~= Seq::<Sent>::empty());
        },
    }
}

/// Over consecutive buffers, a MIDI channel sends its role's messages
/// for the events it keeps, its counters carried across.
pub proof fn lemma_channel_run(
    role: MidiRole,
    common: ChannelCommon,
    c: SampleTickConn,
    s: u64,
    n: usize,
    k: nat,
    bar: u32,
    click: u32,
)
    ensures
        ({
            let kr = kept_run(common, c, s, n, k, bar);
            channel_run(Channel::Midi { common, role }, c, s, n, k, bar, click) == (
                role_msgs(role, kr.0, click),
                kr.1,
                role_click(role, click, kr.0.len()),
            )
        }),
    decreases k,
{
    if k == 0 {
        assert(role_msgs(role, Seq::empty(), click) =~= Seq::<Sent>::empty());
        assert(counter_after(click, 0) == click) by {
            vstd::arithmetic::div_mod::lemma_small_mod(click as nat, 0x1_0000_0000);
        }
    } else {
        let j = (k - 1) as nat;
        lemma_channel_run(role, common, c, s, n, j, bar, click);
        let kr = kept_run(common, c, s, n, j, bar);
        let evs = buffer_events(common, c, (s + j * n) as u64, n);
        let kept = kept_events(common, evs, kr.1);
        lemma_role_msgs_split(role, kr.0, kept, click);
    }
}

/// The events of a channel do not depend on its bar multiplier.
proof fn lemma_window_ignores_bars(
    common: ChannelCommon,
    c: SampleTickConn,
    start: int,
    end: int,
    lo: nat,
    n: nat,
)
    ensures
        window_events(ChannelCommon { bar_multiplier: None, ..common }, c, start, end, lo, n)
            == window_events(common, c, start, end, lo, n),
    decreases n,
{
    if n > 0 {
        lemma_window_ignores_bars(common, c, start, end, lo, (n - 1) as nat);
    }
}

/// The bar multiplier thins a run of buffers as it would thin one
/// buffer over the whole run: a MIDI channel that keeps every `N`-th
/// event, its counter starting at zero, sends over `k` consecutive
/// buffers of `n` samples the role's messages for every `N`-th event
/// (counted from zero across buffers) of what the same channel without
/// a multiplier schedules over those buffers; and that channel sends its
/// role's messages for all of them. This holds under the conditions of
/// [`lemma_buffers_partition_many`] and while the counter does not wrap
/// (at most `2^32` events in the run).
pub proof fn lemma_bar_multiplier_run(
    role: MidiRole,
    common: ChannelCommon,
    c: SampleTickConn,
    s: u64,
    n: usize,
    k: nat,
    click: u32,
)
    requires
        common.bar_multiplier is Some,
        c.sr_of() > 0,
        c.bpm_of() * c.ppqn_of() > 0,
        c.bpm_of() * c.ppqn_of() <= c.sr_of() * 60_000_000,
        -(grid_ticks(common.divider) as int) < common.shuffle.amount < grid_ticks(common.divider),
        k * n <= usize::MAX,
        s + k * n + offset_samples(common, c.sr_of() as int) <= u64::MAX,
        s + k * n - offset_samples(common, c.sr_of() as int) <= u64::MAX,
        s + k * n <= u64::MAX,
        buffer_events(common, c, s, (k * n) as usize).len() <= 0x1_0000_0000,
    ensures
        ({
            let all = ChannelCommon { bar_multiplier: None, ..common };
            let evs = buffer_events(all, c, s, (k * n) as usize);
            let m = common.bar_multiplier->0.value() as nat;
            &&& channel_run(Channel::Midi { common, role }, c, s, n, k, 0, click).0 == role_msgs(
                role,
                every_nth(evs, m),
                click,
            )
            &&& channel_run(Channel::Midi { common: all, role }, c, s, n, k, 0, click).0 == role_msgs(
                role,
                evs,
                click,
            )
        }),
{
    let all = ChannelCommon { bar_multiplier: None, ..common };
    let w = (k * n) as usize;
    lemma_buffers_partition_many(common, c, s, n, k);
    lemma_buffers_partition_many(all, c, s, n, k);
    lemma_kept_run(common, c, s, n, k, 0);
    lemma_kept_run(all, c, s, n, k, 0);
    lemma_channel_run(role, common, c, s, n, k, 0, click);
    lemma_channel_run(role, all, c, s, n, k, 0, click);
    let evs = buffer_events(common, c, s, w);
    assert(buffer_events(all, c, s, w) == evs) by {
        let lo = crate::event::first_tick(common, c, s);
        let hi = crate::event::last_tick(common, c, s, w);
        if !(w == 0 || lo > hi) {
            lemma_window_ignores_bars(
                common,
                c,
                s as int,
                crate::event::window_end(s, w),
                lo as nat,
                (hi - lo + 1) as nat,
            );
        }
    }
    lemma_bar_filter_from_zero(evs, common.bar_multiplier->0.value() as u32);
}

/// While the transport runs, one buffer of a one-channel playhead sends
/// the transport bytes, then what [`channel_render`] gives for the
/// channel, and carries the channel's counters on as it gives them: the
/// step that [`channel_run`] repeats.
pub proof fn lemma_one_channel_step(p: PlayheadV, stop_pending: bool, start: u64, frames: usize, link_playing: bool)
    requires
        p.channels.len() == 1,
        p.bars.len() == 1,
        p.clicks.len() == 1,
        transport_phase(p.transport, p.queue, stop_pending, link_playing).0.running,
    ensures
        ({
            let (q, msgs) = buffer_step(p, stop_pending, start, frames, link_playing);
            let bytes = transport_phase(p.transport, p.queue, stop_pending, link_playing).1;
            let r = channel_render(p.channels[0], p.stc, start, frames, p.bars[0], p.clicks[0]);
            &&& msgs == bytes_msgs(bytes, start) + r.0
            &&& q.bars == seq![r.1]
            &&& q.clicks == seq![r.2]
            &&& q.channels == p.channels
            &&& q.stc == p.stc
        }),
{
    let q = buffer_step(p, stop_pending, start, frames, link_playing).0;
    let r = channel_render(p.channels[0], p.stc, start, frames, p.bars[0], p.clicks[0]);
    assert(q.bars =~= seq![r.1]);
    assert(q.clicks =~= seq![r.2]);
    assert(render_upto(p.channels, p.stc, start, frames, p.bars, p.clicks, 0) == Seq::<Sent>::empty());
    assert(Seq::<Sent>::empty() + r.0 =~= r.0);
    assert(render_upto(p.channels, p.stc, start, frames, p.bars, p.clicks, 1) == r.0);
}

} // verus!
