use std::collections::VecDeque;

use agogo_core::channel::role::{ChannelCommon, MidiClickAccent, MidiClickConfig, MidiRole};
use agogo_core::channel::transform::Channel;
use agogo_core::fxp::{Micro, Tempo};
use agogo_core::midi::{U4, U7};
use agogo_core::nonzero::{NonZeroU16, NonZeroU32};
use agogo_core::out_midi::{MidiRtByte, TestSink, MIDI_CLOCK, MIDI_NOTE_OFF, MIDI_NOTE_ON, MIDI_START, MIDI_STOP};
use agogo_core::swing::SwingConfig;
use agogo_core::time::{Grid, TBase, PPQN};
use agogo_core::transport::{
    CommandTransportQueue, Playhead, TransportCommandApply, TransportPolicy, TransportState,
    COMMAND_TRANSPORT_CAPACITY,
};

fn common(divider: Grid, bar_multiplier: Option<NonZeroU16>) -> ChannelCommon {
    ChannelCommon {
        divider,
        shuffle: SwingConfig { resolution: TBase::T16, amount: 0 },
        delay: Micro(0),
        offset: Micro(0),
        bar_multiplier,
    }
}

fn zero_channel(divider: Grid) -> Channel {
    Channel::Midi { common: common(divider, None), role: MidiRole::Clock }
}

fn click_channel(divider: Grid, cfg: MidiClickConfig, bars: Option<NonZeroU16>) -> Channel {
    Channel::Midi { common: common(divider, bars), role: MidiRole::Click(cfg) }
}

fn playhead(channels: Vec<Channel>, policy: TransportPolicy, frames: usize) -> Playhead {
    let bpm = Tempo::from_bpm_integer(120);
    Playhead::new(channels, 48_000, bpm, PPQN as u32, policy, frames)
}

fn scripted() -> TransportPolicy {
    TransportPolicy::Scripted { schedule: VecDeque::new() }
}

fn drive(p: &mut Playhead, sink: &mut TestSink, from_buffer: u64, n_buffers: u64, frames: usize) {
    for b in from_buffer..from_buffer + n_buffers {
        p.on_buffer(b * frames as u64, frames, false, sink);
    }
}

fn clocks(sink: &TestSink) -> Vec<u64> {
    sink.records().into_iter().filter(|r| r.bytes == vec![MIDI_CLOCK]).map(|r| r.at_sample).collect()
}

fn transport_records(sink: &TestSink) -> Vec<(u64, u8)> {
    sink.records()
        .into_iter()
        .filter(|r| r.bytes.iter().any(|&b| b == MIDI_START || b == MIDI_STOP))
        .map(|r| (r.at_sample, r.bytes[0]))
        .collect()
}

#[test]
fn playhead_buffer_matches_plan13_demo() {
    let mut p = playhead(vec![zero_channel(Grid::T4)], scripted(), 24_000);
    let mut sink = TestSink::new();
    drive(&mut p, &mut sink, 0, 4, 24_000);
    assert_eq!(clocks(&sink), vec![0, 24_000, 48_000, 72_000]);
}

#[test]
fn transport_transport_internal_emits_start_then_stop() {
    let frames = 4_096;
    let mut p = playhead(vec![zero_channel(Grid::T4)], TransportPolicy::Internal { start_emitted: false }, frames);
    let stop = p.stop_handle();
    let mut sink = TestSink::new();
    for b in 0..16u64 {
        if b == 5 {
            stop.request_stop();
        }
        p.on_buffer(b * frames as u64, frames, false, &mut sink);
    }
    assert_eq!(transport_records(&sink), vec![(0, MIDI_START), (5 * frames as u64, MIDI_STOP)]);
    assert!(!p.is_running());
    assert_eq!(clocks(&sink), vec![0]);
}

#[test]
fn command_start_does_not_cancel_teardown_stop() {
    let mut p = playhead(vec![zero_channel(Grid::T4)], TransportPolicy::Internal { start_emitted: true }, 4_096);
    let stop = p.stop_handle();
    let mut sink = TestSink::new();
    stop.request_stop();
    assert_eq!(p.apply_transport_start(), TransportCommandApply::TeardownRequested);
    p.on_buffer(0, 4_096, false, &mut sink);
    let t: Vec<u8> = transport_records(&sink).into_iter().map(|(_, b)| b).collect();
    assert_eq!(t, vec![MIDI_STOP]);
    assert!(!p.is_running());
    assert!(stop.is_stop_requested());
}

#[test]
fn transport_link_driven_emits_on_transitions() {
    let states = [true, true, false, true, false, false, true];
    let mut p = playhead(vec![zero_channel(Grid::T4)], TransportPolicy::LinkDriven { prev_playing: false }, 4_096);
    let mut sink = TestSink::new();
    for (i, &s) in states.iter().enumerate() {
        p.on_buffer(i as u64 * 4_096, 4_096, s, &mut sink);
    }
    let mut expected = Vec::new();
    let mut prev = false;
    for (i, &s) in states.iter().enumerate() {
        let at = i as u64 * 4_096;
        match (prev, s) {
            (false, true) => expected.push((at, MIDI_START)),
            (true, false) => expected.push((at, MIDI_STOP)),
            _ => {}
        }
        prev = s;
    }
    assert_eq!(transport_records(&sink), expected);
}

#[test]
fn transport_transport_scripted_replays_schedule() {
    let schedule = VecDeque::from(vec![None, Some(MidiRtByte::Start), None, Some(MidiRtByte::Stop)]);
    let mut p = playhead(vec![zero_channel(Grid::T4)], TransportPolicy::Scripted { schedule }, 4_096);
    let mut sink = TestSink::new();
    drive(&mut p, &mut sink, 0, 4, 4_096);
    assert_eq!(transport_records(&sink), vec![(4_096, MIDI_START), (3 * 4_096, MIDI_STOP)]);
    assert!(p.is_running(), "Scripted Stop should not flip running");
}

#[test]
fn multi_channel_independent_dispatch() {
    let dividers = [Grid::T4, Grid::T16, Grid::T8, Grid::T32];
    let frames = 4_096usize;
    let n_buffers = 6u64;
    let mut multi = playhead(dividers.iter().copied().map(zero_channel).collect(), scripted(), frames);
    let mut multi_sink = TestSink::new();
    drive(&mut multi, &mut multi_sink, 0, n_buffers, frames);
    let mut reference = Vec::new();
    for b in 0..n_buffers {
        for d in dividers {
            let mut single = playhead(vec![zero_channel(d)], scripted(), frames);
            let mut sink = TestSink::new();
            single.on_buffer(b * frames as u64, frames, false, &mut sink);
            reference.extend(clocks(&sink));
        }
    }
    assert_eq!(clocks(&multi_sink), reference);
}

fn cfg76() -> MidiClickConfig {
    MidiClickConfig { note: U7(76), vel: U7(100), ch: U4(9), accent: None }
}

fn note_ons(sink: &TestSink) -> Vec<u64> {
    sink.records().into_iter().filter(|r| r.bytes[0] == (MIDI_NOTE_ON | 9)).map(|r| r.at_sample).collect()
}

#[test]
fn click_channel_emits_note_on_per_divider_tick() {
    let mut p = playhead(vec![click_channel(Grid::T4, cfg76(), None)], scripted(), 24_000);
    let mut sink = TestSink::new();
    drive(&mut p, &mut sink, 0, 4, 24_000);
    assert_eq!(note_ons(&sink), vec![0, 24_000, 48_000, 72_000]);
}

#[test]
fn bars_filter_emits_every_nth_grid_event() {
    for divider in [Grid::T4, Grid::T8, Grid::T16, Grid::T8Q] {
        for bars in [1u16, 2, 3, 8] {
            let mut unfiltered = playhead(vec![click_channel(divider, cfg76(), None)], scripted(), 24_000);
            let mut filtered =
                playhead(vec![click_channel(divider, cfg76(), NonZeroU16::new(bars))], scripted(), 24_000);
            let mut s_un = TestSink::new();
            let mut s_fi = TestSink::new();
            drive(&mut unfiltered, &mut s_un, 0, 3, 24_000);
            drive(&mut filtered, &mut s_fi, 0, 3, 24_000);
            let expected: Vec<u64> = note_ons(&s_un)
                .iter()
                .enumerate()
                .filter(|(i, _)| *i as u64 % bars as u64 == 0)
                .map(|(_, s)| *s)
                .collect();
            assert_eq!(note_ons(&s_fi), expected, "divider={divider:?} bars={bars}");
        }
    }
}

#[test]
fn bars_filter_huge_n_keeps_only_first_event() {
    let mut p = playhead(vec![click_channel(Grid::T16, cfg76(), NonZeroU16::new(u16::MAX))], scripted(), 48_000);
    let mut sink = TestSink::new();
    drive(&mut p, &mut sink, 0, 4, 48_000);
    let ons = note_ons(&sink);
    assert_eq!(ons.len(), 1);
    assert_eq!(ons[0], 0);
}

#[test]
fn counters_reset_on_transport_stop() {
    for divider in [Grid::T4, Grid::T16, Grid::T1] {
        let cfg = MidiClickConfig {
            note: U7(37),
            vel: U7(70),
            ch: U4(9),
            accent: Some(MidiClickAccent { every: NonZeroU32::new(3).unwrap(), note: U7(38), vel: U7(120) }),
        };
        let mut p = playhead(vec![click_channel(divider, cfg, NonZeroU16::new(2))], scripted(), 24_000);
        let mut sink = TestSink::new();
        drive(&mut p, &mut sink, 0, 3, 24_000);
        p.stop_handle().request_stop();
        drive(&mut p, &mut sink, 3, 1, 24_000);
        assert_eq!(p.bar_counter(0), 0);
        assert_eq!(p.click_counter(0), 0);
        drive(&mut p, &mut sink, 4, 1, 24_000);
        assert_eq!(p.bar_counter(0), 0);
        assert_eq!(p.click_counter(0), 0);
    }
}

#[test]
fn bars_and_accent_compose_correctly() {
    let cfg = MidiClickConfig {
        note: U7(37),
        vel: U7(70),
        ch: U4(9),
        accent: Some(MidiClickAccent { every: NonZeroU32::new(2).unwrap(), note: U7(38), vel: U7(120) }),
    };
    let mut p = playhead(vec![click_channel(Grid::T1, cfg, NonZeroU16::new(2))], scripted(), 96_000);
    let mut sink = TestSink::new();
    drive(&mut p, &mut sink, 0, 8, 96_000);
    let records = sink.records();
    let notes: Vec<u8> = records.iter().filter(|r| r.bytes[0] == (MIDI_NOTE_ON | 9)).map(|r| r.bytes[1]).collect();
    let offs: Vec<u8> = records.iter().filter(|r| r.bytes[0] == (MIDI_NOTE_OFF | 9)).map(|r| r.bytes[1]).collect();
    assert_eq!(notes, vec![38, 37, 38, 37]);
    assert_eq!(offs, vec![38, 37, 38, 37]);
}

#[test]
fn command_start_and_stop_are_staged_in_order() {
    let frames = 4_096;
    let mut p = playhead(vec![zero_channel(Grid::T4)], TransportPolicy::Internal { start_emitted: true }, frames);
    assert_eq!(p.apply_transport_stop(), TransportCommandApply::Applied);
    assert_eq!(p.apply_transport_start(), TransportCommandApply::Applied);
    let mut sink = TestSink::new();
    p.on_buffer(0, frames, false, &mut sink);
    assert_eq!(transport_records(&sink), vec![(0, MIDI_STOP), (0, MIDI_START)]);
    assert!(p.is_running());
}

#[test]
fn command_transport_rejects_link_driven_policy() {
    let mut p = playhead(vec![zero_channel(Grid::T4)], TransportPolicy::LinkDriven { prev_playing: false }, 4_096);
    assert_eq!(p.apply_transport_start(), TransportCommandApply::UnsupportedPolicy);
    assert_eq!(p.apply_transport_stop(), TransportCommandApply::UnsupportedPolicy);
}

#[test]
fn transport_queue_full_reports_separately() {
    let mut p = playhead(vec![zero_channel(Grid::T4)], TransportPolicy::Internal { start_emitted: true }, 4_096);
    for _ in 0..COMMAND_TRANSPORT_CAPACITY {
        assert_eq!(p.apply_transport_start(), TransportCommandApply::Applied);
    }
    assert_eq!(p.apply_transport_start(), TransportCommandApply::QueueFull);
}

#[test]
fn command_queue_is_fifo_with_fixed_capacity() {
    let mut q = CommandTransportQueue::new();
    assert!(q.is_empty());
    assert!(q.push_back(MidiRtByte::Start));
    assert!(q.push_back(MidiRtByte::Stop));
    assert_eq!(q.pop_front(), Some(MidiRtByte::Start));
    assert_eq!(q.pop_front(), Some(MidiRtByte::Stop));
    assert_eq!(q.pop_front(), None);
    for _ in 0..COMMAND_TRANSPORT_CAPACITY {
        assert!(q.push_back(MidiRtByte::Continue));
    }
    assert!(!q.push_back(MidiRtByte::Continue));
    q.clear();
    assert!(q.is_empty());
}

#[test]
fn transport_state_next_byte_follows_policy() {
    let mut t = TransportState::new(TransportPolicy::Internal { start_emitted: false });
    assert_eq!(t.next_byte(false, false), Some(MidiRtByte::Start));
    assert_eq!(t.next_byte(false, false), None);
    assert_eq!(t.next_byte(true, false), Some(MidiRtByte::Stop));
    assert!(!t.is_running());
    assert_eq!(t.next_byte(true, false), None);
}

#[test]
fn apply_tempo_reports_change() {
    let mut p = playhead(vec![zero_channel(Grid::T4)], scripted(), 4_096);
    assert!(!p.apply_tempo(Tempo::from_bpm_integer(120)));
    assert!(p.apply_tempo(Tempo::from_bpm_integer(140)));
    assert_eq!(p.stc.bpm(), Tempo::from_bpm_integer(140));
    assert!(p.max_events_per_buffer() >= 1);
}
