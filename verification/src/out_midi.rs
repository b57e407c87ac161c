//! MIDI output: the sink contract, an in-memory sink, and rendering of
//! clock, transport and click messages at sample positions.

use vstd::prelude::*;
use crate::channel::role::{ChannelCommon, MidiClickConfig, MidiRole};
use crate::channel::transform::ScheduledEvent;
use crate::midi::U7;

verus! {

/// Timing clock, 24 per quarter note.
pub const MIDI_CLOCK: u8 = 0xF8;

/// Start playback from the top.
pub const MIDI_START: u8 = 0xFA;

/// Resume playback.
pub const MIDI_CONTINUE: u8 = 0xFB;

/// Stop playback.
pub const MIDI_STOP: u8 = 0xFC;

/// Note On status nibble; OR with the channel.
pub const MIDI_NOTE_ON: u8 = 0x90;

/// Note Off status nibble; OR with the channel.
pub const MIDI_NOTE_OFF: u8 = 0x80;

/// A message and the sample it is due at.
pub type Sent = (u64, Seq<u8>);

/// A MIDI output that accepts messages stamped with a sample position.
/// `sent` is everything the sink has been handed, in order.
pub trait MidiSink {
    /// The messages handed to the sink so far, in order.
    spec fn sent(&self) -> Seq<Sent>;

    /// Hand one message to the sink, due at `at_sample`.
    fn send_at(&mut self, msg: &[u8], at_sample: u64)
        ensures
            final(self).sent() == old(self).sent().push((at_sample, msg@)),
    ;
}

/// One message captured by a [`TestSink`].
#[derive(Debug, Eq, PartialEq)]
pub struct TestRecord {
    pub at_sample: u64,
    pub bytes: Vec<u8>,
}

impl Clone for TestRecord {
    fn clone(&self) -> (r: Self)
        ensures
            r.at_sample == self.at_sample,
            r.bytes@ == self.bytes@,
    {
        TestRecord { at_sample: self.at_sample, bytes: self.bytes.clone() }
    }
}

/// The captured views of records.
pub open spec fn records_view(r: Seq<TestRecord>) -> Seq<Sent> {
    r.map_values(|x: TestRecord| (x.at_sample, x.bytes@))
}

/// An in-memory sink that records every message in order.
#[derive(Debug, Default)]
pub struct TestSink {
    inner: Vec<TestRecord>,
}

impl MidiSink for TestSink {
    closed spec fn sent(&self) -> Seq<Sent> {
        records_view(self.inner@)
    }

    fn send_at(&mut self, msg: &[u8], at_sample: u64) {
        let mut bytes: Vec<u8> = Vec::new();
        let mut i: usize = 0;
        while i < msg.len()
            invariant
                0 <= i <= msg@.len(),
                bytes@ == msg@.subrange(0, i as int),
            decreases msg.len() - i,
        {
            bytes.push(msg[i]);
            i += 1;
            assert(bytes@ =~= msg@.subrange(0, i as int));
        }
        assert(msg@.subrange(0, msg@.len() as int) =~= msg@);
        let ghost before = records_view(self.inner@);
        self.inner.push(TestRecord { at_sample, bytes });
        assert(records_view(self.inner@) =~= before.push((at_sample, msg@)));
    }
}

impl TestSink {
    /// An empty sink.
    pub fn new() -> (s: TestSink)
        ensures
            s.sent() == Seq::<Sent>::empty(),
    {
        let s = TestSink { inner: Vec::new() };
        assert(records_view(s.inner@) =~= Seq::<Sent>::empty());
        s
    }

    /// A copy of every record, in order.
    pub fn records(&self) -> (r: Vec<TestRecord>)
        ensures
            records_view(r@) == self.sent(),
    {
        let mut out: Vec<TestRecord> = Vec::new();
        let mut i: usize = 0;
        while i < self.inner.len()
            invariant
                0 <= i <= self.inner@.len(),
                records_view(out@) == records_view(self.inner@.subrange(0, i as int)),
            decreases self.inner.len() - i,
        {
            let ghost before = records_view(out@);
            out.push(self.inner[i].clone());
            assert(records_view(out@) =~= before.push((self.inner@[i as int].at_sample, self.inner@[i as int].bytes@)));
            assert(records_view(self.inner@.subrange(0, i + 1)) =~= records_view(self.inner@.subrange(0, i as int)).push((self.inner@[i as int].at_sample, self.inner@[i as int].bytes@)));
            i += 1;
        }
        assert(self.inner@.subrange(0, i as int) =~= self.inner@);
        out
    }

    /// Forget every record.
    pub fn clear(&mut self)
        ensures
            final(self).sent() == Seq::<Sent>::empty(),
    {
        self.inner.clear();
        assert(records_view(self.inner@) =~= Seq::<Sent>::empty());
    }

    /// The number of records.
    pub fn len(&self) -> (n: usize)
        ensures
            n == self.sent().len(),
    {
        self.inner.len()
    }

    /// Whether no message has been recorded.
    pub fn is_empty(&self) -> (b: bool)
        ensures
            b == (self.sent().len() == 0),
    {
        self.inner.len() == 0
    }
}

/// The clock messages of a block: one `0xF8` per event at its sample.
pub open spec fn clock_msgs(events: Seq<ScheduledEvent>) -> Seq<Sent> {
    events.map_values(|e: ScheduledEvent| (e.sample_index, seq![MIDI_CLOCK]))
}

/// Send one clock byte per event, at the event's sample, in order.
pub fn render_clock_block<S: MidiSink>(events: &[ScheduledEvent], sink: &mut S)
    ensures
        final(sink).sent() == old(sink).sent() + clock_msgs(events@),
{
    let mut i: usize = 0;
    while i < events.len()
        invariant
            0 <= i <= events@.len(),
            sink.sent() == old(sink).sent() + clock_msgs(events@.subrange(0, i as int)),
        decreases events.len() - i,
    {
        let m: [u8; 1] = [MIDI_CLOCK];
        assert(m@ =~= seq![MIDI_CLOCK]);
        sink.send_at(&m, events[i].sample_index);
        assert(clock_msgs(events@.subrange(0, i + 1)) =~= clock_msgs(events@.subrange(0, i as int)).push((events@[i as int].sample_index, seq![MIDI_CLOCK])));
        i += 1;
    }
    assert(events@.subrange(0, i as int) =~= events@);
}

/// A single-byte System Real-Time transport message.
#[derive(Copy, Clone, Debug, Eq, PartialEq, Structural)]
pub enum MidiRtByte {
    Start,
    Continue,
    Stop,
}

/// The status byte of a transport message.
pub open spec fn rt_status(b: MidiRtByte) -> u8 {
    match b {
        MidiRtByte::Start => MIDI_START,
        MidiRtByte::Continue => MIDI_CONTINUE,
        MidiRtByte::Stop => MIDI_STOP,
    }
}

impl MidiRtByte {
    /// The status byte.
    pub fn status_byte(self) -> (b: u8)
        ensures
            b == rt_status(self),
    {
        match self {
            MidiRtByte::Start => MIDI_START,
            MidiRtByte::Continue => MIDI_CONTINUE,
            MidiRtByte::Stop => MIDI_STOP,
        }
    }
}

/// The transport message, if any, at the buffer start.
pub open spec fn transport_msgs(t: Option<MidiRtByte>, start: u64) -> Seq<Sent> {
    match t {
        Some(b) => seq![(start, seq![rt_status(b)])],
        None => Seq::empty(),
    }
}

/// Send the transport byte (if any) at the buffer start, then the
/// clock of each event.
pub fn render_buffer<S: MidiSink>(
    events: &[ScheduledEvent],
    transport: Option<MidiRtByte>,
    buffer_start_sample: u64,
    sink: &mut S,
)
    ensures
        final(sink).sent() == old(sink).sent() + transport_msgs(transport, buffer_start_sample)
            + clock_msgs(events@),
{
    match transport {
        Some(t) => {
            let m: [u8; 1] = [t.status_byte()];
            assert(m@ =~= seq![rt_status(t)]);
            sink.send_at(&m, buffer_start_sample);
        },
        None => {},
    }
    assert(sink.sent() =~= old(sink).sent() + transport_msgs(transport, buffer_start_sample));
    render_clock_block(events, sink);
}

/// The note and velocity of the click numbered `c`: the accent's when
/// `c` is a multiple of its period, the click's own otherwise.
pub open spec fn click_note_vel(cfg: MidiClickConfig, c: u32) -> (U7, U7) {
    match cfg.accent {
        Some(a) => if c % a.every.value() == 0 {
            (a.note, a.vel)
        } else {
            (cfg.note, cfg.vel)
        },
        None => (cfg.note, cfg.vel),
    }
}

/// `c + k` wrapping at `2^32`.
pub open spec fn counter_after(c: u32, k: nat) -> u32 {
    ((c + k) % 0x1_0000_0000) as u32
}

/// The Note On and Note Off of one click numbered `c`, at sample `at`.
pub open spec fn click_pair(cfg: MidiClickConfig, c: u32, at: u64) -> Seq<Sent> {
    let (n, v) = click_note_vel(cfg, c);
    seq![
        (at, seq![MIDI_NOTE_ON | cfg.ch.0, n.0, v.0]),
        (at, seq![MIDI_NOTE_OFF | cfg.ch.0, n.0, 0u8]),
    ]
}

/// The messages of a click block whose first click is numbered `c`.
pub open spec fn click_msgs(cfg: MidiClickConfig, events: Seq<ScheduledEvent>, c: u32) -> Seq<Sent>
    decreases events.len(),
{
    if events.len() == 0 {
        Seq::empty()
    } else {
        let k = (events.len() - 1) as nat;
        click_msgs(cfg, events.drop_last(), c) + click_pair(cfg, counter_after(c, k), events.last().sample_index)
    }
}

/// Counting `j` clicks after counting `k` is counting `k + j`.
pub proof fn lemma_counter_after_add(c: u32, k: nat, j: nat)
    ensures
        counter_after(counter_after(c, k), j) == counter_after(c, k + j),
{
    vstd::arithmetic::div_mod::lemma_add_mod_noop(c + k, j as int, 0x1_0000_0000);
    vstd::arithmetic::div_mod::lemma_mod_twice(j as int, 0x1_0000_0000);
    vstd::arithmetic::div_mod::lemma_mod_bound(c + k, 0x1_0000_0000);
}

/// Rendering clicks in two blocks, the second numbered on from where
/// the first stopped, sends what one block over both sends: the accent
/// count carries across buffer boundaries.
pub proof fn lemma_click_msgs_split(cfg: MidiClickConfig, a: Seq<ScheduledEvent>, b: Seq<ScheduledEvent>, c: u32)
    ensures
        click_msgs(cfg, a + b, c) == click_msgs(cfg, a, c) + click_msgs(cfg, b, counter_after(c, a.len())),
        counter_after(counter_after(c, a.len()), b.len()) == counter_after(c, (a + b).len()),
    decreases b.len(),
{
    lemma_counter_after_add(c, a.len(), b.len());
    if b.len() == 0 {
        assert(a + b =~= a);
    } else {
        let b1 = b.drop_last();
        lemma_click_msgs_split(cfg, a, b1, c);
        assert((a + b).drop_last() =~= a + b1);
        assert((a + b).last() == b.last());
        lemma_counter_after_add(c, a.len(), b1.len());
        assert(click_msgs(cfg, a + b, c) =~= click_msgs(cfg, a, c) + click_msgs(
            cfg,
            b,
            counter_after(c, a.len()),
        ));
    }
}

/// Send a Note On and a same-sample Note Off per event, numbering the
/// clicks from `*counter` (which advances, wrapping, once per event).
pub fn render_midi_click_block<S: MidiSink>(
    events: &[ScheduledEvent],
    cfg: &MidiClickConfig,
    counter: &mut u32,
    sink: &mut S,
)
    ensures
        final(sink).sent() == old(sink).sent() + click_msgs(*cfg, events@, *old(counter)),
        *final(counter) == counter_after(*old(counter), events@.len()),
{
    let ch_byte: u8 = cfg.ch.0;
    let ghost c0 = *counter;
    let mut i: usize = 0;
    while i < events.len()
        invariant
            0 <= i <= events@.len(),
            ch_byte == cfg.ch.0,
            *counter == counter_after(c0, i as nat),
            sink.sent() == old(sink).sent() + click_msgs(*cfg, events@.subrange(0, i as int), c0),
        decreases events.len() - i,
    {
        let c = *counter;
        let (n, v) = match cfg.accent {
            Some(a) => if c % a.every.get() == 0 {
                (a.note, a.vel)
            } else {
                (cfg.note, cfg.vel)
            },
            None => (cfg.note, cfg.vel),
        };
        let at = events[i].sample_index;
        let on: [u8; 3] = [MIDI_NOTE_ON | ch_byte, n.0, v.0];
        assert(on@ =~= seq![MIDI_NOTE_ON | ch_byte, n.0, v.0]);
        sink.send_at(&on, at);
        let off: [u8; 3] = [MIDI_NOTE_OFF | ch_byte, n.0, 0];
        assert(off@ =~= seq![MIDI_NOTE_OFF | ch_byte, n.0, 0u8]);
        sink.send_at(&off, at);
        *counter = counter.wrapping_add(1);
        proof {
            let s = events@.subrange(0, i + 1);
            assert(s.drop_last() =~= events@.subrange(0, i as int));
            assert(s.last() == events@[i as int]);
        }
        i += 1;
        proof {
            assert(counter_after(c0, i as nat) == counter_after(counter_after(c0, (i - 1) as nat), 1));
        }
    }
    assert(events@.subrange(0, i as int) =~= events@);
}

/// Render one MIDI channel's block: clock roles send the transport byte
/// and clocks, click roles send notes numbered by `click_counter`,
/// controller roles send nothing.
pub fn render_midi_channel<S: MidiSink>(
    common: &ChannelCommon,
    role: &MidiRole,
    events: &[ScheduledEvent],
    transport: Option<MidiRtByte>,
    buffer_start_sample: u64,
    click_counter: &mut u32,
    sink: &mut S,
)
    ensures
        match *role {
            MidiRole::Clock => final(sink).sent() == old(sink).sent() + transport_msgs(
                transport,
                buffer_start_sample,
            ) + clock_msgs(events@) && *final(click_counter) == *old(click_counter),
            MidiRole::Click(cfg) => final(sink).sent() == old(sink).sent() + click_msgs(
                cfg,
                events@,
                *old(click_counter),
            ) && *final(click_counter) == counter_after(*old(click_counter), events@.len()),
            MidiRole::Cc(_) => final(sink).sent() == old(sink).sent() && *final(click_counter)
                == *old(click_counter),
        },
{
    match role {
        MidiRole::Clock => {
            render_buffer(events, transport, buffer_start_sample, sink);
        },
        MidiRole::Click(cfg) => {
            render_midi_click_block(events, cfg, click_counter, sink);
        },
        MidiRole::Cc(_) => {},
    }
}

} // verus!
