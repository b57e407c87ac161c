use agogo_core::fxp::{linear_u8, pico_to_samples, smoothstep_u8, FixConn, Micro, Pico, Quantum, Tempo};

fn fd03_fd00() -> FixConn {
    FixConn::fd03_fd00()
}

#[test]
fn spot_fd03_fd00_positive() {
    assert_eq!(fd03_fd00().ceil(5), 1);
    assert_eq!(fd03_fd00().floor(5), 0);
    assert_eq!(fd03_fd00().ceil(1_000), 1);
    assert_eq!(fd03_fd00().floor(1_000), 1);
    assert_eq!(fd03_fd00().ceil(999), 1);
    assert_eq!(fd03_fd00().floor(999), 0);
}

#[test]
fn spot_fd03_fd00_negative() {
    assert_eq!(fd03_fd00().ceil(-5), 0);
    assert_eq!(fd03_fd00().floor(-5), -1);
}

#[test]
fn regression_negative_fd03_fd00() {
    assert_eq!(fd03_fd00().ceil(-1_000), -1);
    assert_eq!(fd03_fd00().floor(-1_000), -1);
    assert_eq!(fd03_fd00().ceil(-1_001), -1);
    assert_eq!(fd03_fd00().floor(-1_001), -2);
}

#[test]
fn spot_fd12_fd00_exact_boundary() {
    let c = FixConn { ratio: 1_000_000_000_000 };
    assert_eq!(c.ceil(1_000_000_000_000), 1);
    assert_eq!(c.floor(1_000_000_000_000), 1);
    assert_eq!(c.inner(1), 1_000_000_000_000);
}

#[test]
fn spot_inner_roundtrip_across_ladder() {
    assert_eq!(fd03_fd00().ceil(fd03_fd00().inner(42)), 42);
    assert_eq!(fd03_fd00().floor(fd03_fd00().inner(-42)), -42);
    let c = FixConn::fd12_fd06();
    assert_eq!(c.ceil(c.inner(987)), 987);
}

#[test]
fn fix_conn_galois_on_samples() {
    let c = fd03_fd00();
    for x in -3_005_i64..=3_005 {
        for k in -4_i64..=4 {
            assert_eq!(c.ceil(x) <= k, x <= c.inner(k));
            assert_eq!(k <= c.floor(x), c.inner(k) <= x);
        }
        assert!(c.floor(x) <= c.ceil(x) && c.ceil(x) <= c.floor(x) + 1);
    }
}

#[test]
fn smoothstep_endpoints_explicit() {
    assert_eq!(smoothstep_u8(0, 10), 0);
    assert_eq!(smoothstep_u8(10, 10), 255);
    assert_eq!(smoothstep_u8(5, 10), 128);
}

#[test]
fn linear_endpoints_explicit() {
    assert_eq!(linear_u8(0, 10), 0);
    assert_eq!(linear_u8(10, 10), 255);
    assert_eq!(linear_u8(5, 10), 128);
}

#[test]
fn degenerate_n_zero() {
    assert_eq!(smoothstep_u8(0, 0), 255);
    assert_eq!(linear_u8(0, 0), 255);
}

#[test]
fn smoothstep_is_monotone_on_a_ramp() {
    let n = 1_000;
    let mut prev = 0;
    for t in 0..=n {
        let v = smoothstep_u8(t, n);
        assert!(prev <= v);
        prev = v;
    }
    assert_eq!(prev, 255);
}

#[test]
fn quantum_from_bars_integer_hand_computed() {
    assert_eq!(Quantum::from_bars(4).0 .0, 4_000_000);
    assert_eq!(Quantum::from_bars(1).0 .0, 1_000_000);
    assert_eq!(Quantum::from_bars(0), Quantum(Micro(0)));
}

#[test]
fn fxp_pico_to_samples_one_second_maps_to_sr() {
    let one_second = Pico(1_000_000_000_000);
    for sr in [44_100, 48_000, 88_200, 96_000, 176_400, 192_000] {
        assert_eq!(pico_to_samples(one_second, sr), Some(sr as i64), "sr = {sr}");
    }
}

#[test]
fn fxp_pico_to_samples_rejects_unsupported_and_zero() {
    assert_eq!(pico_to_samples(Pico(1_000_000_000_000), 22_050), None);
    assert_eq!(pico_to_samples(Pico(1_000_000_000_000), 44_099), None);
    assert_eq!(pico_to_samples(Pico(0), 0), None);
}

#[test]
fn boundary_pico_to_samples_one_second_maps_to_sr() {
    let one_second = Pico(1_000_000_000_000);
    for sr in [44_100, 48_000, 88_200, 96_000, 176_400, 192_000] {
        assert_eq!(pico_to_samples(one_second, sr), Some(sr as i64), "sr = {sr}");
    }
}

#[test]
fn boundary_pico_to_samples_rejects_unsupported_and_zero() {
    assert_eq!(pico_to_samples(Pico(1_000_000_000_000), 22_050), None);
    assert_eq!(pico_to_samples(Pico(1_000_000_000_000), 44_099), None);
    assert_eq!(pico_to_samples(Pico(0), 0), None);
}

#[test]
fn tempo_from_bpm_integer_is_micro_bpm() {
    assert_eq!(Tempo::from_bpm_integer(120), Tempo(120_000_000));
    assert_eq!(Tempo(120_000_000).abs_diff(Tempo(119_000_000)), 1_000_000);
}

#[test]
fn smoothstep_is_nearly_symmetric() {
    for n in [1u32, 2, 3, 7, 10, 100, 1_000, 20_000, 65_537] {
        let step = (n / 500).max(1);
        let mut t = 0;
        while t <= n {
            let s = smoothstep_u8(t, n) as u32 + smoothstep_u8(n - t, n) as u32;
            assert!((254..=256).contains(&s), "t={t} n={n} sum={s}");
            t += step;
        }
    }
}
