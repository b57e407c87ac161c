use agogo_core::fxp::{pico_to_samples, Pico, Tempo};
use agogo_core::sample_tick::SampleTickConn;
use agogo_core::time::{Tick, PPQN};

fn mbpm(b: u32) -> Tempo {
    Tempo::from_bpm_integer(b)
}

fn ppqn() -> u32 {
    PPQN as u32
}

#[test]
fn sample_tick_inner_120bpm_48k_one_beat_at_960ppqn() {
    let stc = SampleTickConn::new(48_000, mbpm(120), 960);
    assert_eq!(stc.inner(Tick(960)), 24_000);
}

#[test]
fn sample_tick_floor_and_ceil_bracket_inner() {
    let stc = SampleTickConn::new(48_000, mbpm(120), 960);
    assert_eq!(stc.floor(24_000), Tick(960));
    assert_eq!(stc.ceil(24_000), Tick(960));
    assert_eq!(stc.floor(24_001), Tick(960));
    assert_eq!(stc.ceil(24_001), Tick(961));
}

#[test]
fn sample_tick_zero_is_zero() {
    let stc = SampleTickConn::new(48_000, mbpm(120), 960);
    assert_eq!(stc.inner(Tick(0)), 0);
    assert_eq!(stc.floor(0), Tick(0));
    assert_eq!(stc.ceil(0), Tick(0));
}

fn integer_stcs() -> Vec<SampleTickConn> {
    vec![
        SampleTickConn::new(48_000, mbpm(60), 960),
        SampleTickConn::new(48_000, mbpm(120), 960),
        SampleTickConn::new(48_000, mbpm(240), 960),
        SampleTickConn::new(48_000, mbpm(300), 960),
        SampleTickConn::new(96_000, mbpm(120), 960),
        SampleTickConn::new(192_000, mbpm(120), 960),
        SampleTickConn::new(48_000, mbpm(120), 24),
    ]
}

#[test]
fn sample_tick_round_trip_monotone_and_bracketing() {
    for stc in integer_stcs() {
        let mut prev = Tick(0);
        for t in (0u64..=1_000_000).step_by(9_973) {
            assert_eq!(stc.floor(stc.inner(Tick(t))), Tick(t));
        }
        for s in (0u64..=10_000_000).step_by(99_991) {
            let f = stc.floor(s);
            assert!(prev <= f);
            assert!(f.0 <= stc.ceil(s).0);
            prev = f;
        }
    }
}

#[test]
fn sample_tick_inner_saturates_at_u64_horizon() {
    let stc = SampleTickConn::new(192_000, Tempo(1), 1);
    assert_eq!(stc.inner(Tick(u64::MAX)), u64::MAX);
    let stc_120 = SampleTickConn::new(48_000, Tempo::from_bpm_integer(120), 960);
    assert_eq!(stc_120.inner(Tick(u64::MAX)), u64::MAX);
}

#[test]
fn sample_tick_and_pico_to_samples_agree_at_120bpm_48k() {
    let stc = SampleTickConn::new(48_000, mbpm(120), 960);
    let via_tick: u64 = stc.inner(Tick(960));
    let via_pico: i64 = pico_to_samples(Pico(500_000_000_000), 48_000).expect("48 kHz is supported");
    assert_eq!(via_tick, 24_000);
    assert_eq!(via_pico, 24_000);
    assert_eq!(via_tick as i64, via_pico);
    assert_eq!(stc.inner(Tick(1920)), 48_000);
    assert_eq!(pico_to_samples(Pico(1_000_000_000_000), 48_000), Some(48_000));
}

#[test]
fn pico_to_samples_rejects_unsupported_rate() {
    assert_eq!(pico_to_samples(Pico(0), 22_050), None);
    assert_eq!(pico_to_samples(Pico(0), 0), None);
    assert_eq!(pico_to_samples(Pico(1_000_000_000_000), 48_000), Some(48_000));
}

fn divisors(n: u32) -> Vec<u32> {
    let mut out = Vec::new();
    let mut k = 1u32;
    while k * k <= n {
        if n % k == 0 {
            out.push(k);
            if k != n / k {
                out.push(n / k);
            }
        }
        k += 1;
    }
    out.sort_unstable();
    out
}

fn assert_exact(stc: &SampleTickConn, tick: Tick) {
    let sample = stc.inner(tick);
    let lhs = u128::from(sample) * u128::from(stc.bpm().0) * u128::from(stc.ppqn());
    let rhs = u128::from(tick.0) * u128::from(stc.sr()) * 60 * 1_000_000;
    assert_eq!(lhs, rhs, "tick {} not exact", tick.0);
}

#[test]
fn divisors_of_3000_includes_common_bpms() {
    let d = divisors(3000);
    assert!(d.contains(&60));
    assert!(d.contains(&120));
    assert!(d.contains(&125));
    assert!(d.contains(&250));
    assert!(!d.contains(&137));
    assert!(!d.contains(&240));
}

#[test]
fn divisor_bpms_are_exact_and_round_trip() {
    for (sr, n) in [(48_000u32, 3000u32), (96_000, 6000)] {
        for bpm in divisors(n).into_iter().filter(|&b| b <= 4294) {
            let stc = SampleTickConn::new(sr, Tempo::from_bpm_integer(bpm), ppqn());
            for t in [0u64, 1, 7, 960, 3840, 1_000_000] {
                assert_exact(&stc, Tick(t));
                let s = stc.inner(Tick(t));
                assert_eq!(stc.floor(s), Tick(t));
                assert_eq!(stc.ceil(s), Tick(t));
            }
        }
    }
}

#[test]
fn exact_at_120bpm_48k_960ppqn() {
    let stc = SampleTickConn::new(48_000, Tempo::from_bpm_integer(120), ppqn());
    assert_eq!(stc.inner(Tick(1)), 25);
    assert_exact(&stc, Tick(1));
    assert_exact(&stc, Tick(960));
    assert_exact(&stc, Tick(3840));
}

#[test]
fn exact_at_125bpm_48k_960ppqn() {
    let stc = SampleTickConn::new(48_000, Tempo::from_bpm_integer(125), ppqn());
    assert_eq!(stc.inner(Tick(1)), 24);
    assert_exact(&stc, Tick(1));
}

#[test]
fn exact_at_60bpm_96k_960ppqn() {
    let stc = SampleTickConn::new(96_000, Tempo::from_bpm_integer(60), ppqn());
    assert_eq!(stc.inner(Tick(1)), 100);
    assert_exact(&stc, Tick(1));
}

#[test]
fn non_divisor_bpm_is_not_exact() {
    let stc = SampleTickConn::new(48_000, Tempo::from_bpm_integer(137), ppqn());
    let sample = stc.inner(Tick(1));
    let lhs = u128::from(sample) * u128::from(stc.bpm().0) * u128::from(stc.ppqn());
    let rhs = u128::from(1u32) * u128::from(stc.sr()) * 60 * 1_000_000;
    assert_ne!(lhs, rhs);
}
