//! The multi-channel playhead: per buffer it decides the transport
//! byte (from the stop latch, queued transport commands or the
//! transport policy), then schedules and renders every channel.

use std::collections::VecDeque;
use std::sync::Arc;
use std::sync::atomic::AtomicBool;
use vstd::prelude::*;
use crate::channel::role::MidiRole;
use crate::channel::transform::{common_of, pipeline_ok, Channel, ScheduledEvent};
use crate::event::{buffer_events, max_events_for_buffer, tick_stream_into};
use crate::fxp::{supported_rate, Tempo};
use crate::out_midi::{
    click_msgs, clock_msgs, counter_after, render_midi_channel, rt_status, transport_msgs,
    MidiRtByte, MidiSink, Sent,
};
use crate::sample_tick::SampleTickConn;
use crate::stop::{new_stop_flag, read_flag, share_flag, PlayheadStopHandle};

verus! {

/// How many command-driven transport bytes can wait for the next buffer.
pub const COMMAND_TRANSPORT_CAPACITY: usize = 128;

/// Where transport bytes come from when no command or stop is pending.
pub enum TransportPolicy {
    /// Emit Start on the first buffer, Stop when a stop is requested.
    Internal { start_emitted: bool },
    /// Follow an external playing flag: Start on false to true, Stop on
    /// true to false.
    LinkDriven { prev_playing: bool },
    /// A fixed schedule, one entry per buffer.
    Scripted { schedule: VecDeque<Option<MidiRtByte>> },
}

/// The mathematical form of a [`TransportPolicy`].
pub enum PolicyV {
    Internal { start_emitted: bool },
    LinkDriven { prev_playing: bool },
    Scripted { schedule: Seq<Option<MidiRtByte>> },
}

impl View for TransportPolicy {
    type V = PolicyV;

    open spec fn view(&self) -> PolicyV {
        match self {
            TransportPolicy::Internal { start_emitted } => PolicyV::Internal {
                start_emitted: *start_emitted,
            },
            TransportPolicy::LinkDriven { prev_playing } => PolicyV::LinkDriven {
                prev_playing: *prev_playing,
            },
            TransportPolicy::Scripted { schedule } => PolicyV::Scripted { schedule: schedule@ },
        }
    }
}

/// A transport policy and the clock gate: while not running no clock
/// is emitted.
pub struct TransportState {
    pub policy: TransportPolicy,
    running: bool,
}

/// The mathematical form of a [`TransportState`].
pub struct TransportV {
    pub policy: PolicyV,
    pub running: bool,
}

impl View for TransportState {
    type V = TransportV;

    closed spec fn view(&self) -> TransportV {
        TransportV { policy: self.policy@, running: self.running }
    }
}

/// The transport byte of a buffer without queued commands, and the
/// state after it. A pending stop wins (once); a stopped transport is
/// silent; otherwise the policy decides.
pub open spec fn next_byte_spec(t: TransportV, stop_pending: bool, link_playing: bool) -> (
    TransportV,
    Option<MidiRtByte>,
) {
    if stop_pending && t.running {
        (TransportV { running: false, ..t }, Some(MidiRtByte::Stop))
    } else if !t.running {
        (t, None)
    } else {
        match t.policy {
            PolicyV::Internal { start_emitted } => if !start_emitted {
                (
                    TransportV { policy: PolicyV::Internal { start_emitted: true }, ..t },
                    Some(MidiRtByte::Start),
                )
            } else {
                (t, None)
            },
            PolicyV::LinkDriven { prev_playing } => (
                TransportV { policy: PolicyV::LinkDriven { prev_playing: link_playing }, ..t },
                if !prev_playing && link_playing {
                    Some(MidiRtByte::Start)
                } else if prev_playing && !link_playing {
                    Some(MidiRtByte::Stop)
                } else {
                    None
                },
            ),
            PolicyV::Scripted { schedule } => if schedule.len() == 0 {
                (t, None)
            } else {
                (
                    TransportV {
                        policy: PolicyV::Scripted { schedule: schedule.drop_first() },
                        ..t
                    },
                    schedule[0],
                )
            },
        }
    }
}

impl TransportState {
    /// A running transport with `policy`.
    pub fn new(policy: TransportPolicy) -> (s: TransportState)
        ensures
            s@ == (TransportV { policy: policy@, running: true }),
    {
        TransportState { policy, running: true }
    }

    /// Whether the clock gate is open.
    pub fn is_running(&self) -> (r: bool)
        ensures
            r == self@.running,
    {
        self.running
    }

    /// Whether [`next_byte`](Self::next_byte) with this `stop_pending`
    /// consults the external playing flag.
    pub fn needs_link_query(&self, stop_pending: bool) -> (r: bool)
        ensures
            r == (self@.running && !stop_pending && self@.policy is LinkDriven),
    {
        self.running && !stop_pending && match self.policy {
            TransportPolicy::LinkDriven { .. } => true,
            _ => false,
        }
    }

    /// Decide the transport byte of a buffer with no queued commands.
    /// `link_playing` is the external playing flag (read only by a
    /// link-driven policy).
    pub fn next_byte(&mut self, stop_pending: bool, link_playing: bool) -> (b: Option<MidiRtByte>)
        ensures
            (final(self)@, b) == next_byte_spec(old(self)@, stop_pending, link_playing),
    {
        if stop_pending && self.running {
            self.running = false;
            return Some(MidiRtByte::Stop);
        }
        if !self.running {
            return None;
        }
        match &mut self.policy {
            TransportPolicy::Internal { start_emitted } => {
                if !*start_emitted {
                    *start_emitted = true;
                    Some(MidiRtByte::Start)
                } else {
                    None
                }
            },
            TransportPolicy::LinkDriven { prev_playing } => {
                let prev = *prev_playing;
                *prev_playing = link_playing;
                if !prev && link_playing {
                    Some(MidiRtByte::Start)
                } else if prev && !link_playing {
                    Some(MidiRtByte::Stop)
                } else {
                    None
                }
            },
            TransportPolicy::Scripted { schedule } => match schedule.pop_front() {
                Some(b) => b,
                None => None,
            },
        }
    }
}

/// The outcome of staging a command-driven transport byte.
#[derive(Copy, Clone, Debug, Eq, PartialEq)]
pub enum TransportCommandApply {
    Applied,
    UnsupportedPolicy,
    QueueFull,
    TeardownRequested,
}

/// A fixed-capacity FIFO of transport bytes staged by commands.
pub struct CommandTransportQueue {
    bytes: Vec<MidiRtByte>,
    head: usize,
    len: usize,
}

impl CommandTransportQueue {
    /// The ring's indices are in range.
    pub closed spec fn wf(&self) -> bool {
        &&& self.bytes@.len() == COMMAND_TRANSPORT_CAPACITY
        &&& self.head < COMMAND_TRANSPORT_CAPACITY
        &&& self.len <= COMMAND_TRANSPORT_CAPACITY
    }

    /// The queued bytes, oldest first.
    pub closed spec fn queued(&self) -> Seq<MidiRtByte> {
        Seq::new(
            self.len as nat,
            |i: int| self.bytes@[(self.head + i) % (COMMAND_TRANSPORT_CAPACITY as int)],
        )
    }

    /// An empty queue.
    pub fn new() -> (q: CommandTransportQueue)
        ensures
            q.wf(),
            q.queued() == Seq::<MidiRtByte>::empty(),
    {
        let mut bytes: Vec<MidiRtByte> = Vec::new();
        let mut i: usize = 0;
        while i < COMMAND_TRANSPORT_CAPACITY
            invariant
                bytes@.len() == i,
                i <= COMMAND_TRANSPORT_CAPACITY,
            decreases COMMAND_TRANSPORT_CAPACITY - i,
        {
            bytes.push(MidiRtByte::Start);
            i += 1;
        }
        let q = CommandTransportQueue { bytes, head: 0, len: 0 };
        assert(q.queued() =~= Seq::<MidiRtByte>::empty());
        q
    }

    /// Append a byte unless the queue is full.
    pub fn push_back(&mut self, byte: MidiRtByte) -> (ok: bool)
        requires
            old(self).wf(),
        ensures
            final(self).wf(),
            ok == (old(self).queued().len() < COMMAND_TRANSPORT_CAPACITY),
            ok ==> final(self).queued() == old(self).queued().push(byte),
            !ok ==> final(self).queued() == old(self).queued(),
    {
        if self.len == COMMAND_TRANSPORT_CAPACITY {
            return false;
        }
        let ghost before = self.queued();
        let tail = (self.head + self.len) % COMMAND_TRANSPORT_CAPACITY;
        self.bytes.set(tail, byte);
        self.len = self.len + 1;
        proof {
            assert forall|i: int| 0 <= i < before.len() implies #[trigger] self.queued()[i]
                == before[i] by {
                assert((self.head + i) % 128 != tail as int) by {
                    assert(0 <= i < self.len - 1);
                }
            }
        }
        assert(self.queued() =~= before.push(byte));
        true
    }

    /// Remove and return the oldest byte, if any.
    pub fn pop_front(&mut self) -> (b: Option<MidiRtByte>)
        requires
            old(self).wf(),
        ensures
            final(self).wf(),
            match b {
                Some(x) => old(self).queued().len() > 0 && x == old(self).queued()[0]
                    && final(self).queued() == old(self).queued().drop_first(),
                None => old(self).queued().len() == 0 && final(self).queued() == old(
                    self,
                ).queued(),
            },
    {
        if self.len == 0 {
            return None;
        }
        let ghost before = self.queued();
        let byte = self.bytes[self.head];
        self.head = (self.head + 1) % COMMAND_TRANSPORT_CAPACITY;
        self.len = self.len - 1;
        proof {
            assert forall|i: int| 0 <= i < self.len implies #[trigger] self.queued()[i]
                == before.drop_first()[i] by {
                assert((self.head + i) % 128 == (old(self).head + i + 1) % 128);
            }
        }
        assert(self.queued() =~= before.drop_first());
        Some(byte)
    }

    /// Whether nothing is queued.
    pub fn is_empty(&self) -> (r: bool)
        ensures
            r == (self.queued().len() == 0),
    {
        self.len == 0
    }

    /// Drop everything queued.
    pub fn clear(&mut self)
        requires
            old(self).wf(),
        ensures
            final(self).wf(),
            final(self).queued() == Seq::<MidiRtByte>::empty(),
    {
        self.head = 0;
        self.len = 0;
        assert(self.queued() =~= Seq::<MidiRtByte>::empty());
    }
}

/// The policy after a command-driven Start: an internal policy
/// records that Start has been sent.
pub open spec fn mark_started(p: PolicyV) -> PolicyV {
    match p {
        PolicyV::Internal { .. } => PolicyV::Internal { start_emitted: true },
        _ => p,
    }
}

/// Apply queued transport commands in order: Start reopens the clock
/// gate and is sent, Stop closes it and is sent only when it was open,
/// Continue is sent. Returns the new state and the bytes sent.
pub open spec fn drain_queue(t: TransportV, q: Seq<MidiRtByte>) -> (TransportV, Seq<MidiRtByte>)
    decreases q.len(),
{
    if q.len() == 0 {
        (t, Seq::empty())
    } else {
        let (t1, out) = drain_queue(t, q.drop_last());
        match q.last() {
            MidiRtByte::Start => (
                TransportV { policy: mark_started(t1.policy), running: true },
                out.push(MidiRtByte::Start),
            ),
            MidiRtByte::Stop => if t1.running {
                (TransportV { running: false, ..t1 }, out.push(MidiRtByte::Stop))
            } else {
                (t1, out)
            },
            MidiRtByte::Continue => (t1, out.push(MidiRtByte::Continue)),
        }
    }
}

/// The transport step of a buffer: a pending stop clears the queue and
/// sends at most one Stop; otherwise queued commands are drained;
/// otherwise the policy decides. Returns the new state, the bytes sent
/// and the new queue.
pub open spec fn transport_phase(t: TransportV, q: Seq<MidiRtByte>, stop_pending: bool, link_playing: bool) -> (
    TransportV,
    Seq<MidiRtByte>,
    Seq<MidiRtByte>,
) {
    if stop_pending {
        let (t2, b) = next_byte_spec(t, true, link_playing);
        (t2, opt_seq(b), Seq::empty())
    } else if q.len() > 0 {
        let (t2, out) = drain_queue(t, q);
        (t2, out, Seq::empty())
    } else {
        let (t2, b) = next_byte_spec(t, false, link_playing);
        (t2, opt_seq(b), q)
    }
}

/// An optional byte as a sequence of at most one.
pub open spec fn opt_seq(b: Option<MidiRtByte>) -> Seq<MidiRtByte> {
    match b {
        Some(x) => seq![x],
        None => Seq::empty(),
    }
}

/// Transport bytes sent at the buffer start.
pub open spec fn bytes_msgs(bs: Seq<MidiRtByte>, start: u64) -> Seq<Sent> {
    bs.map_values(|b: MidiRtByte| (start, seq![rt_status(b)]))
}

/// Keep every `m`-th event, counting from `c` (the counter advances,
/// wrapping, once per event).
pub open spec fn bar_filter(evs: Seq<ScheduledEvent>, c: u32, m: u32) -> Seq<ScheduledEvent>
    decreases evs.len(),
{
    if evs.len() == 0 {
        Seq::empty()
    } else {
        let rest = bar_filter(evs.drop_last(), c, m);
        if counter_after(c, (evs.len() - 1) as nat) % m == 0 {
            rest.push(evs.last())
        } else {
            rest
        }
    }
}

/// One channel's buffer: its events in the window, thinned by the bar
/// multiplier, rendered per role. Returns the messages and the new bar
/// and click counters.
pub open spec fn channel_render(
    ch: Channel,
    c: SampleTickConn,
    start: u64,
    frames: usize,
    bar: u32,
    click: u32,
) -> (Seq<Sent>, u32, u32) {
    let common = common_of(ch);
    let evs = buffer_events(common, c, start, frames);
    let kept = match common.bar_multiplier {
        Some(m) => bar_filter(evs, bar, m.value() as u32),
        None => evs,
    };
    let bar2 = match common.bar_multiplier {
        Some(m) => counter_after(bar, evs.len()),
        None => bar,
    };
    match ch {
        Channel::Midi { role, .. } => match role {
            MidiRole::Clock => (clock_msgs(kept), bar2, click),
            MidiRole::Click(cfg) => (
                click_msgs(cfg, kept, click),
                bar2,
                counter_after(click, kept.len()),
            ),
            MidiRole::Cc(_) => (Seq::empty(), bar2, click),
        },
        _ => (Seq::empty(), bar2, click),
    }
}

/// The messages of channels `0..n`, each with its own counters.
pub open spec fn render_upto(
    chs: Seq<Channel>,
    c: SampleTickConn,
    start: u64,
    frames: usize,
    bars: Seq<u32>,
    clicks: Seq<u32>,
    n: nat,
) -> Seq<Sent>
    decreases n,
{
    if n == 0 {
        Seq::empty()
    } else {
        let i = (n - 1) as int;
        render_upto(chs, c, start, frames, bars, clicks, (n - 1) as nat) + channel_render(
            chs[i],
            c,
            start,
            frames,
            bars[i],
            clicks[i],
        ).0
    }
}

/// The multi-channel runtime: channels, the shared tick/sample
/// conversion, transport state, per-channel counters and the staged
/// command bytes.
pub struct Playhead {
    pub(crate) channels: Vec<Channel>,
    /// The tick/sample conversion all channels share.
    pub stc: SampleTickConn,
    /// Transport policy and clock gate.
    pub transport: TransportState,
    events_pool: Vec<ScheduledEvent>,
    bar_counters: Vec<u32>,
    click_counters: Vec<u32>,
    stop_flag: Arc<AtomicBool>,
    command_transport: CommandTransportQueue,
}

/// The mathematical form of a [`Playhead`].
pub struct PlayheadV {
    pub channels: Seq<Channel>,
    pub stc: SampleTickConn,
    pub transport: TransportV,
    pub queue: Seq<MidiRtByte>,
    pub bars: Seq<u32>,
    pub clicks: Seq<u32>,
}

impl View for Playhead {
    type V = PlayheadV;

    closed spec fn view(&self) -> PlayheadV {
        PlayheadV {
            channels: self.channels@,
            stc: self.stc,
            transport: self.transport@,
            queue: self.command_transport.queued(),
            bars: self.bar_counters@,
            clicks: self.click_counters@,
        }
    }
}

/// Every channel can run through the pipeline at the shared rate.
pub open spec fn channels_ok(chs: Seq<Channel>, c: SampleTickConn) -> bool {
    forall|i: int| 0 <= i < chs.len() ==> pipeline_ok(common_of(#[trigger] chs[i]), c)
}

/// The state and messages after one buffer, given whether a stop was
/// pending when it began.
pub open spec fn buffer_step(
    p: PlayheadV,
    stop_pending: bool,
    start: u64,
    frames: usize,
    link_playing: bool,
) -> (PlayheadV, Seq<Sent>) {
    let (t2, sent_bytes, q2) = transport_phase(p.transport, p.queue, stop_pending, link_playing);
    let head = bytes_msgs(sent_bytes, start);
    if !t2.running {
        (
            PlayheadV {
                transport: t2,
                queue: q2,
                bars: Seq::new(p.bars.len(), |i: int| 0u32),
                clicks: Seq::new(p.clicks.len(), |i: int| 0u32),
                ..p
            },
            head,
        )
    } else {
        (
            PlayheadV {
                transport: t2,
                queue: q2,
                bars: Seq::new(
                    p.bars.len(),
                    |i: int| channel_render(p.channels[i], p.stc, start, frames, p.bars[i], p.clicks[i]).1,
                ),
                clicks: Seq::new(
                    p.clicks.len(),
                    |i: int| channel_render(p.channels[i], p.stc, start, frames, p.bars[i], p.clicks[i]).2,
                ),
                ..p
            },
            head + render_upto(p.channels, p.stc, start, frames, p.bars, p.clicks, p.channels.len()),
        )
    }
}

/// Staging a command-driven transport byte: only an internal policy
/// takes one, and only while the queue has room.
pub open spec fn stage_spec(p: PlayheadV, byte: MidiRtByte) -> (TransportCommandApply, PlayheadV) {
    match p.transport.policy {
        PolicyV::Internal { .. } => if p.queue.len() < COMMAND_TRANSPORT_CAPACITY {
            (TransportCommandApply::Applied, PlayheadV { queue: p.queue.push(byte), ..p })
        } else {
            (TransportCommandApply::QueueFull, p)
        },
        _ => (TransportCommandApply::UnsupportedPolicy, p),
    }
}

impl Playhead {
    /// The stop latch this playhead reads once per buffer.
    pub closed spec fn stop_latch(&self) -> Arc<AtomicBool> {
        self.stop_flag
    }

    /// The playhead's invariants: counters parallel the channels, every
    /// channel fits the pipeline, the command ring is consistent.
    pub closed spec fn wf(&self) -> bool {
        &&& self.bar_counters@.len() == self.channels@.len()
        &&& self.click_counters@.len() == self.channels@.len()
        &&& channels_ok(self.channels@, self.stc)
        &&& self.command_transport.wf()
    }

    /// A playhead over `channels` at rate `sr`, tempo `bpm` and `ppqn`
    /// ticks per quarter; `buffer_frames` sizes the event scratch
    /// buffer.
    pub fn new(
        channels: Vec<Channel>,
        sr: u32,
        bpm: Tempo,
        ppqn: u32,
        transport: TransportPolicy,
        buffer_frames: usize,
    ) -> (p: Playhead)
        requires
            supported_rate(sr),
            bpm.0 > 0,
            ppqn > 0,
            buffer_frames <= usize::MAX - 16,
            forall|i: int| 0 <= i < channels@.len() ==> crate::channel::transform::micro_fits(
                common_of(#[trigger] channels@[i]).offset.0,
            ),
        ensures
            p.wf(),
            p@.channels == channels@,
            p@.stc.sr_of() == sr && p@.stc.bpm_of() == bpm.0 && p@.stc.ppqn_of() == ppqn,
            p@.transport == (TransportV { policy: transport@, running: true }),
            p@.queue == Seq::<MidiRtByte>::empty(),
            p@.bars == Seq::new(channels@.len(), |i: int| 0u32),
            p@.clicks == Seq::new(channels@.len(), |i: int| 0u32),
    {
        let cap = max_events_for_buffer(buffer_frames);
        let n = channels.len();
        let mut bars: Vec<u32> = Vec::new();
        let mut clicks: Vec<u32> = Vec::new();
        let mut i: usize = 0;
        while i < n
            invariant
                0 <= i <= n,
                bars@ == Seq::new(i as nat, |j: int| 0u32),
                clicks@ == Seq::new(i as nat, |j: int| 0u32),
            decreases n - i,
        {
            bars.push(0);
            clicks.push(0);
            i += 1;
            assert(bars@ =~= Seq::new(i as nat, |j: int| 0u32));
            assert(clicks@ =~= Seq::new(i as nat, |j: int| 0u32));
        }
        let stc = SampleTickConn::new(sr, bpm, ppqn);
        Playhead {
            channels,
            stc,
            transport: TransportState::new(transport),
            events_pool: Vec::with_capacity(cap),
            bar_counters: bars,
            click_counters: clicks,
            stop_flag: new_stop_flag(),
            command_transport: CommandTransportQueue::new(),
        }
    }

    /// A control-thread handle on this playhead's stop latch.
    pub fn stop_handle(&self) -> (h: PlayheadStopHandle)
        ensures
            h.latch() == self.stop_latch(),
    {
        PlayheadStopHandle::from_flag(share_flag(&self.stop_flag))
    }

    /// The capacity of the event scratch buffer.
    pub fn max_events_per_buffer(&self) -> usize {
        vec_capacity(&self.events_pool)
    }

    /// The bar counter of channel `i`.
    pub fn bar_counter(&self, i: usize) -> (c: u32)
        requires
            i < self@.bars.len(),
        ensures
            c == self@.bars[i as int],
    {
        self.bar_counters[i]
    }

    /// The click counter of channel `i`.
    pub fn click_counter(&self, i: usize) -> (c: u32)
        requires
            i < self@.clicks.len(),
        ensures
            c == self@.clicks[i as int],
    {
        self.click_counters[i]
    }

    /// Whether the clock gate is open.
    pub fn is_running(&self) -> (r: bool)
        ensures
            r == self@.transport.running,
    {
        self.transport.running
    }

    /// Change the tempo at a buffer boundary; `false` when it is
    /// already the tempo.
    pub fn apply_tempo(&mut self, bpm: Tempo) -> (changed: bool)
        requires
            old(self).wf(),
            bpm.0 > 0,
        ensures
            final(self).wf(),
            changed == (old(self)@.stc.bpm_of() != bpm.0),
            final(self)@.stc.bpm_of() == bpm.0,
            final(self)@.stc.sr_of() == old(self)@.stc.sr_of(),
            final(self)@.stc.ppqn_of() == old(self)@.stc.ppqn_of(),
            final(self)@ == (PlayheadV { stc: final(self)@.stc, ..old(self)@ }),
    {
        if self.stc.bpm().0 == bpm.0 {
            return false;
        }
        let sr = self.stc.sr();
        let ppqn = self.stc.ppqn();
        self.stc = SampleTickConn::new(sr, bpm, ppqn);
        true
    }

    fn stage(&mut self, byte: MidiRtByte) -> (r: TransportCommandApply)
        requires
            old(self).wf(),
        ensures
            final(self).wf(),
            (r, final(self)@) == stage_spec(old(self)@, byte),
    {
        match self.transport.policy {
            TransportPolicy::Internal { .. } => {},
            _ => {
                return TransportCommandApply::UnsupportedPolicy;
            },
        }
        if self.command_transport.push_back(byte) {
            TransportCommandApply::Applied
        } else {
            TransportCommandApply::QueueFull
        }
    }

    /// Stage a command-driven Start for the next buffer. Refused after a
    /// stop request (`TeardownRequested`), under a non-internal policy
    /// (`UnsupportedPolicy`) and when the queue is full (`QueueFull`).
    pub fn apply_transport_start(&mut self) -> (r: TransportCommandApply)
        requires
            old(self).wf(),
        ensures
            final(self).wf(),
            r == TransportCommandApply::TeardownRequested ==> final(self)@ == old(self)@,
            r != TransportCommandApply::TeardownRequested ==> (r, final(self)@) == stage_spec(
                old(self)@,
                MidiRtByte::Start,
            ),
    {
        if read_flag(&self.stop_flag) {
            return TransportCommandApply::TeardownRequested;
        }
        self.stage(MidiRtByte::Start)
    }

    /// Stage a command-driven Stop for the next buffer; refused as
    /// [`apply_transport_start`](Self::apply_transport_start) is.
    pub fn apply_transport_stop(&mut self) -> (r: TransportCommandApply)
        requires
            old(self).wf(),
        ensures
            final(self).wf(),
            r == TransportCommandApply::TeardownRequested ==> final(self)@ == old(self)@,
            r != TransportCommandApply::TeardownRequested ==> (r, final(self)@) == stage_spec(
                old(self)@,
                MidiRtByte::Stop,
            ),
    {
        if read_flag(&self.stop_flag) {
            return TransportCommandApply::TeardownRequested;
        }
        self.stage(MidiRtByte::Stop)
    }
}

/// The capacity of a vector (`Vec::capacity`), at least its length.
#[verifier::external_body]
fn vec_capacity<T>(v: &Vec<T>) -> (n: usize)
    ensures
        n >= v@.len(),
{
    v.capacity()
}

fn send_byte<S: MidiSink>(sink: &mut S, b: MidiRtByte, start: u64)
    ensures
        final(sink).sent() == old(sink).sent() + bytes_msgs(seq![b], start),
{
    let m: [u8; 1] = [b.status_byte()];
    assert(m@ =~= seq![rt_status(b)]);
    sink.send_at(&m, start);
    assert(bytes_msgs(seq![b], start) =~= seq![(start, seq![rt_status(b)])]);
}

/// Keep every `m`-th event of `pool` in place, counting from `*counter`.
#[verifier::rlimit(40)]
#[verifier::spinoff_prover]
fn filter_every(pool: &mut Vec<ScheduledEvent>, counter: &mut u32, m: u32)
    requires
        m > 0,
    ensures
        final(pool)@ == bar_filter(old(pool)@, *old(counter), m),
        *final(counter) == counter_after(*old(counter), old(pool)@.len()),
{
    let ghost p0 = pool@;
    let ghost c0 = *counter;
    let n = pool.len();
    let mut w: usize = 0;
    let mut r: usize = 0;
    while r < n
        invariant
            w <= r <= n,
            n == p0.len(),
            m > 0,
            pool@.len() == n,
            pool@.subrange(0, w as int) == bar_filter(p0.subrange(0, r as int), c0, m),
            forall|j: int| r <= j < n ==> pool@[j] == p0[j],
            *counter == counter_after(c0, r as nat),
        decreases n - r,
    {
        let keep = *counter % m == 0;
        let e = pool[r];
        proof {
            let s = p0.subrange(0, r + 1);
            assert(s.drop_last() =~= p0.subrange(0, r as int));
            assert(s.last() == p0[r as int]);
        }
        if keep {
            pool.set(w, e);
            w += 1;
            assert(pool@.subrange(0, w as int) =~= bar_filter(p0.subrange(0, r as int), c0, m).push(e));
        }
        *counter = counter.wrapping_add(1);
        r += 1;
        proof {
            assert(counter_after(c0, r as nat) == counter_after(counter_after(c0, (r - 1) as nat), 1));
        }
    }
    assert(p0.subrange(0, n as int) =~= p0);
    pool.truncate(w);
    assert(pool@ =~= bar_filter(p0, c0, m));
}

impl Playhead {
    fn transport_step<S: MidiSink>(&mut self, stop_pending: bool, start: u64, link_playing: bool, sink: &mut S)
        requires
            old(self).wf(),
        ensures
            final(self).wf(),
            ({
                let (t2, bs, q2) = transport_phase(old(self)@.transport, old(self)@.queue, stop_pending, link_playing);
                &&& final(self)@ == (PlayheadV { transport: t2, queue: q2, ..old(self)@ })
                &&& final(sink).sent() == old(sink).sent() + bytes_msgs(bs, start)
            }),
    {
        if stop_pending {
            self.command_transport.clear();
            match self.transport.next_byte(true, link_playing) {
                Some(t) => send_byte(sink, t, start),
                None => {},
            }
            assert(bytes_msgs(Seq::<MidiRtByte>::empty(), start) =~= Seq::<Sent>::empty());
        } else if !self.command_transport.is_empty() {
            let ghost q0 = self.command_transport.queued();
            let ghost t0 = self.transport@;
            let ghost sent0 = sink.sent();
            let mut k: usize = 0;
            assert(q0.subrange(0, 0) =~= Seq::<MidiRtByte>::empty());
            assert(bytes_msgs(Seq::<MidiRtByte>::empty(), start) =~= Seq::<Sent>::empty());
            assert(self.command_transport.queued() =~= q0.subrange(0, q0.len() as int));
            loop
                invariant
                    self.wf(),
                    self.channels@ == old(self).channels@,
                    self.stc == old(self).stc,
                    self.bar_counters@ == old(self).bar_counters@,
                    self.click_counters@ == old(self).click_counters@,
                    q0 == old(self)@.queue,
                    t0 == old(self)@.transport,
                    sent0 == old(sink).sent(),
                    !stop_pending,
                    q0.len() > 0,
                    k <= q0.len(),
                    self.command_transport.queued() == q0.subrange(k as int, q0.len() as int),
                    (self.transport@, drain_queue(t0, q0.subrange(0, k as int)).1) == drain_queue(
                        t0,
                        q0.subrange(0, k as int),
                    ),
                    sink.sent() == sent0 + bytes_msgs(drain_queue(t0, q0.subrange(0, k as int)).1, start),
                decreases q0.len() - k,
            {
                let popped = self.command_transport.pop_front();
                let b = match popped {
                    Some(b) => b,
                    None => {
                        assert(k == q0.len());
                        assert(q0.subrange(0, k as int) =~= q0);
                        assert(self.command_transport.queued() =~= Seq::<MidiRtByte>::empty());
                        assert(self@.queue =~= Seq::<MidiRtByte>::empty());
                        assert(self@.transport == drain_queue(t0, q0).0);
                        return;
                    },
                };
                let ghost prefix = q0.subrange(0, k as int);
                let ghost (t1, out1) = drain_queue(t0, prefix);
                proof {
                    let s = q0.subrange(0, k + 1);
                    assert(s.drop_last() =~= prefix);
                    assert(s.last() == b);
                    assert(self.command_transport.queued() =~= q0.subrange(k + 1, q0.len() as int));
                }
                match b {
                    MidiRtByte::Start => {
                        match &mut self.transport.policy {
                            TransportPolicy::Internal { start_emitted } => {
                                *start_emitted = true;
                            },
                            _ => {},
                        }
                        self.transport.running = true;
                        send_byte(sink, MidiRtByte::Start, start);
                        assert(bytes_msgs(out1.push(MidiRtByte::Start), start) =~= bytes_msgs(out1, start) + bytes_msgs(seq![MidiRtByte::Start], start));
                    },
                    MidiRtByte::Stop => {
                        if self.transport.running {
                            self.transport.running = false;
                            send_byte(sink, MidiRtByte::Stop, start);
                            assert(bytes_msgs(out1.push(MidiRtByte::Stop), start) =~= bytes_msgs(out1, start) + bytes_msgs(seq![MidiRtByte::Stop], start));
                        }
                    },
                    MidiRtByte::Continue => {
                        send_byte(sink, MidiRtByte::Continue, start);
                        assert(bytes_msgs(out1.push(MidiRtByte::Continue), start) =~= bytes_msgs(out1, start) + bytes_msgs(seq![MidiRtByte::Continue], start));
                    },
                }
                k += 1;
            }
        } else {
            match self.transport.next_byte(false, link_playing) {
                Some(t) => send_byte(sink, t, start),
                None => {},
            }
            assert(bytes_msgs(Seq::<MidiRtByte>::empty(), start) =~= Seq::<Sent>::empty());
        }
    }
}


impl Playhead {
    /// Schedule and render every channel for the buffer at `start`
    /// with `frames` frames, advancing each channel's counters.
    fn render_channels<S: MidiSink>(&mut self, start: u64, frames: usize, sink: &mut S)
        requires
            old(self).wf(),
        ensures
            final(self).wf(),
            final(self)@ == (PlayheadV {
                bars: Seq::new(
                    old(self)@.bars.len(),
                    |i: int|
                        channel_render(
                            old(self)@.channels[i],
                            old(self)@.stc,
                            start,
                            frames,
                            old(self)@.bars[i],
                            old(self)@.clicks[i],
                        ).1,
                ),
                clicks: Seq::new(
                    old(self)@.clicks.len(),
                    |i: int|
                        channel_render(
                            old(self)@.channels[i],
                            old(self)@.stc,
                            start,
                            frames,
                            old(self)@.bars[i],
                            old(self)@.clicks[i],
                        ).2,
                ),
                ..old(self)@
            }),
            final(sink).sent() == old(sink).sent() + render_upto(
                old(self)@.channels,
                old(self)@.stc,
                start,
                frames,
                old(self)@.bars,
                old(self)@.clicks,
                old(self)@.channels.len(),
            ),
    {
        let ghost p0 = self@;
        let ghost sent0 = sink.sent();
        let n = self.channels.len();
        let mut idx: usize = 0;
        assert(render_upto(p0.channels, p0.stc, start, frames, p0.bars, p0.clicks, 0) =~= Seq::<
            Sent,
        >::empty());
        while idx < n
            invariant
                self.wf(),
                n == p0.channels.len(),
                idx <= n,
                self@.channels == p0.channels,
                self@.stc == p0.stc,
                self@.transport == p0.transport,
                self@.queue == p0.queue,
                self@.bars.len() == n,
                self@.clicks.len() == n,
                p0.bars.len() == n,
                p0.clicks.len() == n,
                forall|j: int|
                    0 <= j < idx ==> #[trigger] self@.bars[j] == channel_render(
                        p0.channels[j],
                        p0.stc,
                        start,
                        frames,
                        p0.bars[j],
                        p0.clicks[j],
                    ).1,
                forall|j: int|
                    0 <= j < idx ==> #[trigger] self@.clicks[j] == channel_render(
                        p0.channels[j],
                        p0.stc,
                        start,
                        frames,
                        p0.bars[j],
                        p0.clicks[j],
                    ).2,
                forall|j: int| idx <= j < n ==> #[trigger] self@.bars[j] == p0.bars[j],
                forall|j: int| idx <= j < n ==> #[trigger] self@.clicks[j] == p0.clicks[j],
                sink.sent() == sent0 + render_upto(
                    p0.channels,
                    p0.stc,
                    start,
                    frames,
                    p0.bars,
                    p0.clicks,
                    idx as nat,
                ),
            decreases n - idx,
        {
            let ch = &self.channels[idx];
            let common = ch.common();
            let ghost cm = *common;
            let ghost r = channel_render(
                p0.channels[idx as int],
                p0.stc,
                start,
                frames,
                p0.bars[idx as int],
                p0.clicks[idx as int],
            );
            assert(pipeline_ok(cm, self.stc)) by {
                assert(channels_ok(self.channels@, self.stc));
                assert(common_of(self.channels@[idx as int]) == cm);
            }
            self.events_pool.clear();
            tick_stream_into(&mut self.events_pool, common, &self.stc, start, frames);
            let ghost evs = buffer_events(cm, p0.stc, start, frames);
            assert(self.events_pool@ =~= evs);
            match common.bar_multiplier {
                Some(m) => {
                    let mut c = self.bar_counters[idx];
                    filter_every(&mut self.events_pool, &mut c, m.get() as u32);
                    self.bar_counters.set(idx, c);
                },
                None => {},
            }
            assert(self.bar_counters@[idx as int] == r.1);
            match ch {
                Channel::Midi { common: mc, role } => {
                    let mut cc = self.click_counters[idx];
                    render_midi_channel(mc, role, self.events_pool.as_slice(), None, start, &mut cc, sink);
                    self.click_counters.set(idx, cc);
                    assert(transport_msgs(None, start) =~= Seq::<Sent>::empty());
                },
                _ => {},
            }
            assert(self.click_counters@[idx as int] == r.2);
            assert(sink.sent() =~= sent0 + render_upto(
                p0.channels,
                p0.stc,
                start,
                frames,
                p0.bars,
                p0.clicks,
                (idx + 1) as nat,
            ));
            idx += 1;
        }
        assert(self@.bars =~= Seq::new(
            p0.bars.len(),
            |i: int| channel_render(p0.channels[i], p0.stc, start, frames, p0.bars[i], p0.clicks[i]).1,
        ));
        assert(self@.clicks =~= Seq::new(
            p0.clicks.len(),
            |i: int| channel_render(p0.channels[i], p0.stc, start, frames, p0.bars[i], p0.clicks[i]).2,
        ));
    }
}

impl Playhead {
    /// One buffer at `start` with `frames` frames, given whether a stop
    /// was pending when it began and the external playing flag: the
    /// transport step, then (while running) every channel; a stopped
    /// transport resets the per-channel counters and renders nothing.
    pub fn on_buffer_with<S: MidiSink>(
        &mut self,
        stop_pending: bool,
        start: u64,
        frames: usize,
        link_playing: bool,
        sink: &mut S,
    )
        requires
            old(self).wf(),
        ensures
            final(self).wf(),
            final(self)@ == buffer_step(old(self)@, stop_pending, start, frames, link_playing).0,
            final(sink).sent() == old(sink).sent() + buffer_step(
                old(self)@,
                stop_pending,
                start,
                frames,
                link_playing,
            ).1,
    {
        let ghost p0 = self@;
        let ghost sent0 = sink.sent();
        self.transport_step(stop_pending, start, link_playing, sink);
        let ghost p1 = self@;
        if !self.transport.running {
            let n = self.bar_counters.len();
            let mut i: usize = 0;
            while i < n
                invariant
                    self.wf(),
                    n == self.bar_counters@.len(),
                    self@.channels == p0.channels,
                    self@.stc == p0.stc,
                    self@.transport == p1.transport,
                    self@.queue == p1.queue,
                    i <= n,
                    forall|j: int| 0 <= j < i ==> #[trigger] self.bar_counters@[j] == 0u32,
                    forall|j: int| 0 <= j < i ==> #[trigger] self.click_counters@[j] == 0u32,
                decreases n - i,
            {
                self.bar_counters.set(i, 0);
                self.click_counters.set(i, 0);
                i += 1;
            }
            assert(self@.bars =~= Seq::new(p0.bars.len(), |i: int| 0u32));
            assert(self@.clicks =~= Seq::new(p0.clicks.len(), |i: int| 0u32));
            return;
        }
        self.render_channels(start, frames, sink);
    }

    /// One buffer: reads the stop latch once, then runs
    /// [`on_buffer_with`](Self::on_buffer_with). What the latch holds
    /// depends on the control thread, so the result is stated for the
    /// value that was read.
    pub fn on_buffer<S: MidiSink>(&mut self, start: u64, frames: usize, link_playing: bool, sink: &mut S)
        requires
            old(self).wf(),
        ensures
            final(self).wf(),
            exists|stop_pending: bool|
                {
                    &&& final(self)@ == buffer_step(
                        old(self)@,
                        stop_pending,
                        start,
                        frames,
                        link_playing,
                    ).0
                    &&& final(sink).sent() == old(sink).sent() + buffer_step(
                        old(self)@,
                        stop_pending,
                        start,
                        frames,
                        link_playing,
                    ).1
                },
    {
        let stop_pending = read_flag(&self.stop_flag);
        self.on_buffer_with(stop_pending, start, frames, link_playing, sink);
    }
}

} // verus!
