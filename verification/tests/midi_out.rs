use agogo_core::channel::role::{ChannelCommon, MidiCcConfig, MidiClickAccent, MidiClickConfig, MidiRole};
use agogo_core::channel::transform::ScheduledEvent;
use agogo_core::event::tick_stream;
use agogo_core::fxp::{Micro, Tempo};
use agogo_core::midi::{U4, U7};
use agogo_core::nonzero::NonZeroU32;
use agogo_core::out_midi::{
    render_buffer, render_clock_block, render_midi_channel, render_midi_click_block, MidiRtByte, TestRecord,
    TestSink, MIDI_CLOCK, MIDI_CONTINUE, MIDI_NOTE_OFF, MIDI_NOTE_ON, MIDI_START, MIDI_STOP,
};
use agogo_core::out_midi::MidiSink;
use agogo_core::sample_tick::SampleTickConn;
use agogo_core::swing::SwingConfig;
use agogo_core::time::{Grid, TBase, Tick};

fn ev(at_sample: u64) -> ScheduledEvent {
    ScheduledEvent { sample_index: at_sample, tick: Tick(0) }
}

fn samples_of(sink: &TestSink) -> Vec<u64> {
    sink.records().iter().map(|r| r.at_sample).collect()
}

#[test]
fn status_byte_constants_match_spec() {
    assert_eq!(MIDI_CLOCK, 0xF8);
    assert_eq!(MIDI_START, 0xFA);
    assert_eq!(MIDI_CONTINUE, 0xFB);
    assert_eq!(MIDI_STOP, 0xFC);
}

#[test]
fn test_sink_records_round_trip() {
    let mut sink = TestSink::new();
    assert!(sink.is_empty());
    sink.send_at(&[MIDI_CLOCK], 0);
    sink.send_at(&[MIDI_START], 1024);
    assert_eq!(sink.len(), 2);
    assert_eq!(
        sink.records(),
        vec![
            TestRecord { at_sample: 0, bytes: vec![MIDI_CLOCK] },
            TestRecord { at_sample: 1024, bytes: vec![MIDI_START] },
        ],
    );
    sink.clear();
    assert!(sink.is_empty());
}

#[test]
fn render_clock_block_spot_check_four_events() {
    let evs = [ev(0), ev(24_000), ev(48_000), ev(72_000)];
    let mut sink = TestSink::new();
    render_clock_block(&evs, &mut sink);
    let recs = sink.records();
    assert_eq!(recs.len(), 4);
    for (r, e) in recs.iter().zip(evs.iter()) {
        assert_eq!(r.at_sample, e.sample_index);
        assert_eq!(r.bytes, vec![MIDI_CLOCK]);
    }
}

#[test]
fn render_clock_block_empty_is_noop() {
    let mut sink = TestSink::new();
    render_clock_block(&[], &mut sink);
    assert!(sink.is_empty());
}

#[test]
fn clock_keeps_order_and_one_record_per_event() {
    let samples = vec![5u64, 3, u64::MAX, 0, 5];
    let evs: Vec<ScheduledEvent> = samples.iter().copied().map(ev).collect();
    let mut sink = TestSink::new();
    render_clock_block(&evs, &mut sink);
    assert_eq!(samples_of(&sink), samples);
    assert!(sink.records().iter().all(|r| r.bytes == vec![MIDI_CLOCK]));
}

#[test]
fn midi_rt_byte_status_values() {
    assert_eq!(MidiRtByte::Start.status_byte(), MIDI_START);
    assert_eq!(MidiRtByte::Continue.status_byte(), MIDI_CONTINUE);
    assert_eq!(MidiRtByte::Stop.status_byte(), MIDI_STOP);
}

#[test]
fn render_buffer_transport_only_no_events() {
    let mut sink = TestSink::new();
    render_buffer(&[], Some(MidiRtByte::Start), 1024, &mut sink);
    let recs = sink.records();
    assert_eq!(recs.len(), 1);
    assert_eq!(recs[0].at_sample, 1024);
    assert_eq!(recs[0].bytes, vec![MIDI_START]);
}

#[test]
fn render_buffer_no_transport_just_clock_events() {
    let mut sink = TestSink::new();
    render_buffer(&[ev(0), ev(24_000)], None, 0, &mut sink);
    let recs = sink.records();
    assert_eq!(recs.len(), 2);
    for r in &recs {
        assert_eq!(r.bytes, vec![MIDI_CLOCK]);
    }
}

#[test]
fn render_buffer_emits_rt_byte_first() {
    for variant in [MidiRtByte::Start, MidiRtByte::Continue, MidiRtByte::Stop] {
        let evs = [ev(7), ev(9)];
        let mut sink = TestSink::new();
        render_buffer(&evs, Some(variant), 3, &mut sink);
        let recs = sink.records();
        assert_eq!(recs.len(), 3);
        assert_eq!(recs[0].at_sample, 3);
        assert_eq!(recs[0].bytes, vec![variant.status_byte()]);
    }
}

fn midi_common(divider: Grid) -> ChannelCommon {
    ChannelCommon {
        divider,
        shuffle: SwingConfig { resolution: TBase::T16, amount: 0 },
        delay: Micro(0),
        offset: Micro(0),
        bar_multiplier: None,
    }
}

#[test]
fn midi_clock_role_routes_through_render_buffer() {
    let common = midi_common(Grid::T4);
    let mut sink = TestSink::new();
    let mut counter = 0u32;
    render_midi_channel(&common, &MidiRole::Clock, &[ev(0), ev(24_000)], Some(MidiRtByte::Start), 0, &mut counter, &mut sink);
    let recs = sink.records();
    assert_eq!(recs.len(), 3);
    assert_eq!(recs[0].bytes, vec![MIDI_START]);
    assert_eq!(recs[1].bytes, vec![MIDI_CLOCK]);
    assert_eq!(recs[2].bytes, vec![MIDI_CLOCK]);
}

#[test]
fn cc_role_is_noop_until_v02() {
    let common = midi_common(Grid::T4);
    let role = MidiRole::Cc(MidiCcConfig { cc: U7(74), range: (U7(0), U7(127)) });
    let mut sink = TestSink::new();
    let mut counter = 0u32;
    render_midi_channel(&common, &role, &[ev(0), ev(24_000)], Some(MidiRtByte::Start), 0, &mut counter, &mut sink);
    assert!(sink.is_empty());
}

#[test]
fn block_render_matches_scheduler() {
    let common = midi_common(Grid::T16);
    let stc = SampleTickConn::new(48_000, Tempo::from_bpm_integer(120), 960);
    for (start, frames) in [(0u64, 1usize), (0, 8_192), (1_000, 4_096), (999_999, 6_001)] {
        let evs = tick_stream(&common, &stc, start, frames);
        let mut sink = TestSink::new();
        let mut counter = 0u32;
        render_midi_channel(&common, &MidiRole::Clock, &evs, None, start, &mut counter, &mut sink);
        let expected: Vec<u64> = evs.iter().map(|e| e.sample_index).collect();
        assert_eq!(samples_of(&sink), expected);
    }
}

fn click_cfg(note: u8, vel: u8, ch: u8, accent: Option<MidiClickAccent>) -> MidiClickConfig {
    MidiClickConfig {
        note: U7::new(note).expect("note in 0..=127"),
        vel: U7::new(vel).expect("vel in 0..=127"),
        ch: U4::new(ch).expect("ch in 0..=15"),
        accent,
    }
}

#[test]
fn click_emits_note_on_then_note_off_per_event() {
    let cfg = click_cfg(76, 100, 9, None);
    let mut sink = TestSink::new();
    let mut counter = 0u32;
    render_midi_click_block(&[ev(0), ev(24_000)], &cfg, &mut counter, &mut sink);
    let recs = sink.records();
    assert_eq!(recs.len(), 4);
    assert_eq!(recs[0].at_sample, 0);
    assert_eq!(recs[0].bytes, vec![MIDI_NOTE_ON | 9, 76, 100]);
    assert_eq!(recs[1].at_sample, 0);
    assert_eq!(recs[1].bytes, vec![MIDI_NOTE_OFF | 9, 76, 0]);
    assert_eq!(recs[2].at_sample, 24_000);
    assert_eq!(recs[2].bytes, vec![MIDI_NOTE_ON | 9, 76, 100]);
    assert_eq!(recs[3].at_sample, 24_000);
    assert_eq!(recs[3].bytes, vec![MIDI_NOTE_OFF | 9, 76, 0]);
    assert_eq!(counter, 2);
}

#[test]
fn click_accent_lands_on_counter_zero_then_every_n() {
    let accent = MidiClickAccent { every: NonZeroU32::new(4).unwrap(), note: U7(38), vel: U7(120) };
    let cfg = click_cfg(37, 70, 9, Some(accent));
    let evs: Vec<ScheduledEvent> = (0..5).map(|i| ev(i * 1000)).collect();
    let mut sink = TestSink::new();
    let mut counter = 0u32;
    render_midi_click_block(&evs, &cfg, &mut counter, &mut sink);
    let recs = sink.records();
    assert_eq!(recs.len(), 10);
    let expected_notes = [38, 37, 37, 37, 38];
    let expected_vels = [120, 70, 70, 70, 120];
    for (i, (n, v)) in expected_notes.iter().zip(expected_vels.iter()).enumerate() {
        assert_eq!(recs[i * 2].bytes, vec![MIDI_NOTE_ON | 9, *n, *v]);
        assert_eq!(recs[i * 2 + 1].bytes, vec![MIDI_NOTE_OFF | 9, *n, 0]);
    }
    assert_eq!(counter, 5);
}

#[test]
fn click_counter_advances_across_buffer_boundaries() {
    let accent = MidiClickAccent { every: NonZeroU32::new(3).unwrap(), note: U7(1), vel: U7(127) };
    let cfg = click_cfg(60, 80, 2, Some(accent));
    let all: Vec<ScheduledEvent> = (0..10).map(|i| ev(i * 7)).collect();
    for split in 0..=all.len() {
        let mut a = TestSink::new();
        let mut ca = 0u32;
        render_midi_click_block(&all, &cfg, &mut ca, &mut a);
        let mut b = TestSink::new();
        let mut cb = 0u32;
        render_midi_click_block(&all[..split], &cfg, &mut cb, &mut b);
        render_midi_click_block(&all[split..], &cfg, &mut cb, &mut b);
        assert_eq!(a.records(), b.records());
        assert_eq!(ca, cb);
        assert_eq!(ca as usize, all.len());
    }
}

#[test]
fn click_records_are_paired_on_off_with_channel() {
    for ch in [0u8, 9, 15] {
        let cfg = click_cfg(60, 80, ch, None);
        let evs: Vec<ScheduledEvent> = [4u64, 2, 9].iter().copied().map(ev).collect();
        let mut sink = TestSink::new();
        let mut counter = 0u32;
        render_midi_click_block(&evs, &cfg, &mut counter, &mut sink);
        let recs = sink.records();
        assert_eq!(recs.len(), 2 * evs.len());
        assert_eq!(counter as usize, evs.len());
        for pair in recs.chunks_exact(2) {
            assert_eq!(pair[0].at_sample, pair[1].at_sample);
            assert_eq!(pair[0].bytes[0], MIDI_NOTE_ON | ch);
            assert_eq!(pair[1].bytes[0], MIDI_NOTE_OFF | ch);
            assert_eq!(pair[0].bytes[1], pair[1].bytes[1]);
            assert_eq!(pair[1].bytes[2], 0);
        }
    }
}

#[test]
fn click_role_routes_through_render_midi_click_block() {
    let common = midi_common(Grid::T4);
    let role = MidiRole::Click(click_cfg(76, 100, 9, None));
    let mut sink = TestSink::new();
    let mut counter = 0u32;
    render_midi_channel(&common, &role, &[ev(0), ev(24_000)], Some(MidiRtByte::Start), 0, &mut counter, &mut sink);
    let recs = sink.records();
    assert_eq!(recs.len(), 4);
    assert_eq!(recs[0].bytes, vec![MIDI_NOTE_ON | 9, 76, 100]);
    assert_eq!(recs[1].bytes, vec![MIDI_NOTE_OFF | 9, 76, 0]);
    assert_eq!(recs[2].bytes, vec![MIDI_NOTE_ON | 9, 76, 100]);
    assert_eq!(recs[3].bytes, vec![MIDI_NOTE_OFF | 9, 76, 0]);
    assert_eq!(counter, 2);
}
