use agogo_core::channel::role::{ChannelCommon, CvRole, DinRole, MidiRole};
use agogo_core::channel::transform::{micro_to_samples, transform, Channel, MAX_DELAY_US};
use agogo_core::event::{max_events_for_buffer, tick_stream, tick_stream_into};
use agogo_core::fxp::{Micro, Tempo};
use agogo_core::sample_tick::SampleTickConn;
use agogo_core::swing::SwingConfig;
use agogo_core::time::{Grid, TBase, Tick};

fn stc_120_48k() -> SampleTickConn {
    SampleTickConn::new(48_000, Tempo::from_bpm_integer(120), 960)
}

fn zero_common(divider: Grid) -> ChannelCommon {
    ChannelCommon {
        divider,
        shuffle: SwingConfig { resolution: TBase::T16, amount: 0 },
        delay: Micro(0),
        offset: Micro(0),
        bar_multiplier: None,
    }
}

fn zero_midi_clock_channel(divider: Grid) -> Channel {
    Channel::Midi { common: zero_common(divider), role: MidiRole::Clock }
}

fn ticks(range: std::ops::RangeInclusive<u64>) -> Vec<Tick> {
    range.map(Tick).collect()
}

#[test]
fn channel_common_borrow_matches_inner_field() {
    let ch = zero_midi_clock_channel(Grid::T4);
    assert_eq!(ch.common().divider, Grid::T4);
    assert_eq!(ch.common().delay, Micro(0));
}

#[test]
fn channel_common_mut_round_trip() {
    let mut ch = zero_midi_clock_channel(Grid::T4);
    ch.common_mut().delay = Micro(10_000);
    assert_eq!(ch.common().delay, Micro(10_000));
}

#[test]
fn channel_din_constructible() {
    let _ = Channel::Din { common: zero_common(Grid::T4), role: DinRole::Sync24 };
}

#[test]
fn channel_cv_constructible() {
    let _ = Channel::Cv { common: zero_common(Grid::T4), role: CvRole::Pulse };
    let _ = Channel::Cv { common: zero_common(Grid::T4), role: CvRole::Lfo };
}

#[test]
fn t4_at_120bpm_48k_emits_at_half_second_multiples() {
    let ev = transform(&ticks(0..=3840), &zero_common(Grid::T4), &stc_120_48k());
    let samples: Vec<u64> = ev.iter().map(|e| e.sample_index).collect();
    assert_eq!(samples, vec![0, 24_000, 48_000, 72_000, 96_000]);
}

#[test]
fn delay_10ms_adds_exactly_480_samples() {
    let mut common = zero_common(Grid::T4);
    common.delay = Micro(10_000);
    let ev = transform(&[Tick(0), Tick(960)], &common, &stc_120_48k());
    let samples: Vec<u64> = ev.iter().map(|e| e.sample_index).collect();
    assert_eq!(samples, vec![480, 24_480]);
}

#[test]
fn divider_filters_unaligned_ticks() {
    let ev = transform(&ticks(0..=1000), &zero_common(Grid::T4), &stc_120_48k());
    let t: Vec<u64> = ev.iter().map(|e| e.tick.0).collect();
    assert_eq!(t, vec![0, 960]);
}

#[test]
fn t8q_quintuplet_divider_fires_at_192_ticks() {
    let ev = transform(&ticks(0..=1000), &zero_common(Grid::T8Q), &stc_120_48k());
    let t: Vec<u64> = ev.iter().map(|e| e.tick.0).collect();
    assert_eq!(t, vec![0, 192, 384, 576, 768, 960]);
}

#[test]
fn delay_over_300ms_saturates() {
    let mut common = zero_common(Grid::T4);
    common.delay = Micro(1_000_000);
    let ev = transform(&[Tick(0)], &common, &stc_120_48k());
    assert_eq!(ev[0].sample_index, 14_400);
}

#[test]
fn negative_delay_clamped_to_zero() {
    let mut common = zero_common(Grid::T4);
    common.delay = Micro(-100_000);
    let ev = transform(&[Tick(0), Tick(960)], &common, &stc_120_48k());
    assert_eq!(ev[0].sample_index, 0);
    assert_eq!(ev[1].sample_index, 24_000);
}

#[test]
fn offset_negative_shifts_earlier() {
    let mut common = zero_common(Grid::T4);
    common.offset = Micro(-1_000);
    let ev = transform(&[Tick(960)], &common, &stc_120_48k());
    assert_eq!(ev[0].sample_index, 24_000 - 48);
}

#[test]
fn delay_clamps_both_ways() {
    let stc = stc_120_48k();
    let cap = micro_to_samples(Micro(MAX_DELAY_US), stc.sr()) as u64;
    for d in [MAX_DELAY_US, MAX_DELAY_US + 1, 10_000_000] {
        let mut common = zero_common(Grid::T4);
        common.delay = Micro(d);
        assert_eq!(transform(&[Tick(960)], &common, &stc)[0].sample_index, 24_000 + cap);
    }
    for d in [-10_000_000, -1] {
        let mut common = zero_common(Grid::T4);
        common.delay = Micro(d);
        assert_eq!(transform(&[Tick(960)], &common, &stc)[0].sample_index, 24_000);
    }
}

#[test]
fn divider_rate_preservation() {
    for divider in Grid::ALL {
        for beats in [1u64, 3, 16] {
            let span = beats * 960;
            let ev = transform(&ticks(0..=span - 1), &zero_common(divider), &stc_120_48k());
            assert_eq!(ev.len() as u64, span.div_ceil(divider.tick_count() as u64));
        }
    }
}

#[test]
fn shuffle_identity_on_even_steps() {
    for amount in [i8::MIN, -3, 0, 5, i8::MAX] {
        let mut common = zero_common(Grid::T16);
        common.shuffle = SwingConfig { resolution: TBase::T16, amount };
        for step in [0u64, 480, 960, 1440] {
            let ev = transform(&[Tick(step)], &common, &stc_120_48k());
            assert_eq!(ev[0].tick, Tick(step));
        }
    }
}

#[test]
fn event_t4_120bpm_48k_fires_at_buffer_6_offset_24000() {
    let ev = tick_stream(&zero_common(Grid::T4), &stc_120_48k(), 20_480, 4_096);
    assert_eq!(ev.len(), 1);
    assert_eq!(ev[0].sample_index, 24_000);
    assert_eq!(ev[0].tick.0, 960);
}

#[test]
fn event_empty_buffer_returns_empty() {
    assert!(tick_stream(&zero_common(Grid::T4), &stc_120_48k(), 0, 0).is_empty());
}

#[test]
fn event_buffer_with_no_events_returns_empty() {
    assert!(tick_stream(&zero_common(Grid::T4), &stc_120_48k(), 1_000, 4_000).is_empty());
}

#[test]
fn event_t16_buffer_covers_multiple_events() {
    let ev = tick_stream(&zero_common(Grid::T16), &stc_120_48k(), 0, 24_000);
    let samples: Vec<u64> = ev.iter().map(|e| e.sample_index).collect();
    assert_eq!(samples, vec![0, 6_000, 12_000, 18_000]);
}

#[test]
fn scheduler_t4_120bpm_48k_fires_at_buffer_6_offset_24000() {
    let ev = tick_stream(&zero_common(Grid::T4), &stc_120_48k(), 20_480, 4_096);
    assert_eq!(ev.len(), 1);
    assert_eq!(ev[0].sample_index, 24_000);
    assert_eq!(ev[0].tick.0, 960);
}

#[test]
fn scheduler_empty_buffer_returns_empty() {
    assert!(tick_stream(&zero_common(Grid::T4), &stc_120_48k(), 0, 0).is_empty());
}

#[test]
fn scheduler_buffer_with_no_events_returns_empty() {
    assert!(tick_stream(&zero_common(Grid::T4), &stc_120_48k(), 1_000, 4_000).is_empty());
}

#[test]
fn scheduler_t16_buffer_covers_multiple_events() {
    let ev = tick_stream(&zero_common(Grid::T16), &stc_120_48k(), 0, 24_000);
    let samples: Vec<u64> = ev.iter().map(|e| e.sample_index).collect();
    assert_eq!(samples, vec![0, 6_000, 12_000, 18_000]);
}

#[test]
fn events_stay_in_their_window_and_buffers_partition_the_stream() {
    let stc = stc_120_48k();
    let mut common = zero_common(Grid::T16);
    common.shuffle = SwingConfig { resolution: TBase::T16, amount: 40 };
    common.delay = Micro(2_500);
    let whole = tick_stream(&common, &stc, 0, 512 * 188);
    let mut pieces = Vec::new();
    let mut start = 0u64;
    while start < 512 * 188 {
        let mut buf = Vec::new();
        tick_stream_into(&mut buf, &common, &stc, start, 512);
        for e in &buf {
            assert!(start <= e.sample_index && e.sample_index < start + 512);
        }
        assert!(buf.len() <= max_events_for_buffer(512));
        pieces.extend(buf);
        start += 512;
    }
    assert_eq!(pieces, whole);
}

#[test]
fn tick_monotonicity() {
    for divider in Grid::ALL {
        let step = divider.tick_count() as i32;
        let cap = (step - 1).min(i8::MAX as i32) as i8;
        for amount in [-cap, -1, 0, 1, cap] {
            for resolution in [TBase::T8, TBase::T16] {
                let common = ChannelCommon {
                    divider,
                    shuffle: SwingConfig { resolution, amount },
                    delay: Micro(2_500),
                    offset: Micro(-1_000),
                    bar_multiplier: None,
                };
                let ev = transform(&ticks(0..=4_000), &common, &stc_120_48k());
                for w in ev.windows(2) {
                    assert!(w[0].tick <= w[1].tick, "{:?} then {:?}", w[0], w[1]);
                    assert!(w[0].sample_index <= w[1].sample_index, "{:?} then {:?}", w[0], w[1]);
                }
            }
        }
    }
}

#[test]
fn consecutive_buffers_partition_the_window() {
    for divider in [Grid::T4, Grid::T16, Grid::T8T, Grid::T32Q] {
        let mut common = zero_common(divider);
        common.delay = Micro(1_500);
        common.offset = Micro(-700);
        let stc = stc_120_48k();
        let whole = tick_stream(&common, &stc, 0, 96_000);
        let mut joined = Vec::new();
        for k in 0..96u64 {
            joined.extend(tick_stream(&common, &stc, k * 1_000, 1_000));
        }
        assert_eq!(joined, whole);
    }
}

#[test]
fn buffer_event_count_stays_within_the_reserved_bound() {
    let stc = stc_120_48k();
    for divider in [Grid::T1, Grid::T16, Grid::T256, Grid::T32Q] {
        let step = divider.tick_count() as i32;
        let cap = (step - 1).min(i8::MAX as i32) as i8;
        for amount in [-cap, 0, cap] {
            let mut common = zero_common(divider);
            common.shuffle = SwingConfig { resolution: TBase::T16, amount };
            for frames in [0usize, 1, 7, 64, 512] {
                for start in [0u64, 3, 1_000, 47_999] {
                    let ev = tick_stream(&common, &stc, start, frames);
                    assert!(ev.len() <= frames + 2, "{divider:?} {amount} {frames} {start}");
                    assert!(ev.len() <= max_events_for_buffer(frames));
                }
            }
        }
    }
}
