use agogo_core::channel::role::{MidiClickAccent, MidiClickConfig, MidiRole};
use agogo_core::channel::spec::error::ChannelSpecError;
use agogo_core::channel::spec::parser::parse_channels;
use agogo_core::channel::spec::types::ChannelSpec;
use agogo_core::channel::transform::{Channel, MAX_DELAY_US};
use agogo_core::fxp::Micro;
use agogo_core::midi::{U4, U7};
use agogo_core::nonzero::{NonZeroU16, NonZeroU32};
use agogo_core::swing::SwingConfig;
use agogo_core::time::{Grid, TBase};

fn parse(s: &str) -> Result<ChannelSpec, ChannelSpecError> {
    ChannelSpec::parse(s, &[])
}

#[test]
fn parse_minimal() {
    let spec = parse("dev=midi").unwrap();
    assert_eq!(spec.grid, Grid::T4);
    assert_eq!(spec.swing, SwingConfig { resolution: TBase::T8, amount: 0 });
    assert_eq!(spec.offset_ticks, 0);
}

#[test]
fn parse_rejects_dev_unknown() {
    let err = parse("dev=florble").unwrap_err();
    match err {
        ChannelSpecError::BadValue(key, val) => {
            assert_eq!(key, "dev");
            assert_eq!(val, "florble");
        }
        other => panic!("expected BadValue, got {other:?}"),
    }
}

#[test]
fn parse_with_grid() {
    assert_eq!(parse("dev=midi,grid=T16").unwrap().grid, Grid::T16);
}

#[test]
fn parse_grid_dsl_expr() {
    assert_eq!(parse("dev=midi,grid=T16&T16t").unwrap().grid, Grid::T32T);
}

#[test]
fn parse_grid_with_variable() {
    let env = vec![("kick".to_string(), Grid::T4)];
    let spec = ChannelSpec::parse("dev=midi,grid=kick&T16", &env).unwrap();
    assert_eq!(spec.grid, Grid::T16);
}

#[test]
fn parse_swing_bare_amount() {
    let spec = parse("dev=midi,swing=80").unwrap();
    assert_eq!(spec.swing, SwingConfig { resolution: TBase::T8, amount: 80 });
}

#[test]
fn parse_swing_with_resolution() {
    let spec = parse("dev=midi,swing=T16:80").unwrap();
    assert_eq!(spec.swing, SwingConfig { resolution: TBase::T16, amount: 80 });
}

#[test]
fn parse_swing_negative() {
    let spec = parse("dev=midi,swing=-40").unwrap();
    assert_eq!(spec.swing, SwingConfig { resolution: TBase::T8, amount: -40 });
}

#[test]
fn parse_swing_explicit_negative() {
    let spec = parse("dev=midi,swing=T16:-40").unwrap();
    assert_eq!(spec.swing, SwingConfig { resolution: TBase::T16, amount: -40 });
}

#[test]
fn parse_offset() {
    assert_eq!(parse("dev=midi,offset=20").unwrap().offset_ticks, 20);
}

#[test]
fn parse_offset_negative() {
    assert_eq!(parse("dev=midi,offset=-5").unwrap().offset_ticks, -5);
}

#[test]
fn parse_channels_positional_var() {
    let specs = vec!["dev=midi,grid=T4".to_string(), "dev=midi,grid=C1&T16".to_string()];
    let result = parse_channels(&specs).unwrap();
    assert_eq!(result[0].0, "C1");
    assert_eq!(result[0].1.grid, Grid::T4);
    assert_eq!(result[1].0, "C2");
    assert_eq!(result[1].1.grid, Grid::T16);
}

#[test]
fn parse_channels_named_var() {
    let specs = vec!["id=kick,dev=midi,grid=T4".to_string(), "dev=midi,grid=kick&T16".to_string()];
    let result = parse_channels(&specs).unwrap();
    assert_eq!(result[0].0, "kick");
    assert_eq!(result[1].1.grid, Grid::T16);
}

#[test]
fn parse_channels_forward_ref_errors() {
    let specs = vec!["dev=midi,grid=T4".to_string(), "dev=midi,grid=C3&T16".to_string()];
    let err = parse_channels(&specs).unwrap_err();
    assert!(matches!(err, ChannelSpecError::BadValue("grid", _)));
}

#[test]
fn parse_channels_default_grid() {
    let specs = vec!["dev=midi".to_string()];
    let result = parse_channels(&specs).unwrap();
    assert_eq!(result[0].1.grid, Grid::T4);
}

#[test]
fn parse_channels_three_channels() {
    let specs = vec![
        "dev=midi,grid=T4".to_string(),
        "dev=midi,grid=C1&T16".to_string(),
        "dev=midi,grid=C2|T8t".to_string(),
    ];
    let result = parse_channels(&specs).unwrap();
    assert_eq!(result[2].1.grid, Grid::T4);
}

#[test]
fn parse_channels_rejects_duplicate_id() {
    let specs = vec!["id=kick,dev=midi,grid=T4".to_string(), "id=kick,dev=midi,grid=T8".to_string()];
    let err = parse_channels(&specs).unwrap_err();
    assert!(matches!(err, ChannelSpecError::BadValue("id", _)));
}

#[test]
fn parse_channels_rejects_grid_literal_id() {
    let specs = vec!["id=T16,dev=midi".to_string()];
    let err = parse_channels(&specs).unwrap_err();
    assert!(matches!(err, ChannelSpecError::BadValue("id", _)));
}

#[test]
fn parse_rejects_unknown_key() {
    let err = parse("dev=midi,unknown=x").unwrap_err();
    assert_eq!(err, ChannelSpecError::UnknownKey("unknown".into()));
}

#[test]
fn parse_rejects_missing_dev() {
    assert_eq!(parse("grid=T16").unwrap_err(), ChannelSpecError::MissingKey("dev"));
}

#[test]
fn parse_rejects_dev_audio() {
    assert_eq!(parse("dev=audio").unwrap_err(), ChannelSpecError::AudioDeferred);
}

#[test]
fn parse_rejects_bad_grid() {
    let err = parse("dev=midi,grid=T3").unwrap_err();
    assert!(matches!(err, ChannelSpecError::BadValue("grid", _)));
}

#[test]
fn spec_into_channel_clamps_delay() {
    let ch = parse("dev=midi,delay=500").unwrap().into_channel().unwrap();
    assert_eq!(ch.common().delay, Micro(MAX_DELAY_US));
}

#[test]
fn validate_into_channel_clamps_delay() {
    let ch = parse("dev=midi,delay=500").unwrap().into_channel().unwrap();
    assert_eq!(ch.common().delay, Micro(MAX_DELAY_US));
}

#[test]
fn parse_rejects_negative_delay() {
    let err = parse("dev=midi,delay=-50").unwrap_err();
    assert_eq!(err, ChannelSpecError::BadValue("delay", "must be non-negative".to_string()));
}

#[test]
fn parse_delay_fractional_milliseconds_round_up_to_micros() {
    assert_eq!(parse("dev=midi,delay=0.116").unwrap().delay, Micro(116));
    assert_eq!(parse("dev=midi,delay=1.0001").unwrap().delay, Micro(1001));
    assert_eq!(parse("dev=midi,delay=2.5").unwrap().delay, Micro(2500));
}


#[test]
fn parse_delay_exponent_forms() {
    assert_eq!(parse("dev=midi,delay=1e3").unwrap().delay, Micro(1_000_000));
    assert_eq!(parse("dev=midi,delay=2.5E-2").unwrap().delay, Micro(25));
    assert_eq!(parse("dev=midi,delay=1e-9").unwrap().delay, Micro(1));
    assert_eq!(parse("dev=midi,delay=+.5e+1").unwrap().delay, Micro(5_000));
    assert_eq!(parse("dev=midi,delay=-0").unwrap().delay, Micro(0));
    assert_eq!(
        parse("dev=midi,delay=9223372036854775.807").unwrap().delay,
        Micro(i64::MAX)
    );
}

#[test]
fn parse_delay_errors() {
    let bad = |v: &str| parse(&format!("dev=midi,delay={v}")).unwrap_err();
    let msg = |m: &str| ChannelSpecError::BadValue("delay", m.to_string());
    assert_eq!(bad("1e"), msg("expected decimal milliseconds"));
    assert_eq!(bad("e3"), msg("expected decimal milliseconds"));
    assert_eq!(bad("."), msg("expected decimal milliseconds"));
    assert_eq!(bad("1e400"), msg("out of range"));
    assert_eq!(bad("9223372036854775.808"), msg("out of range"));
    assert_eq!(bad("-1e-9"), msg("must be non-negative"));
    assert_eq!(bad("inf"), msg("must be finite"));
    assert_eq!(bad("-Infinity"), msg("must be finite"));
    assert_eq!(bad("NaN"), msg("must be finite"));
}
#[test]
fn spec_display_round_trip_minimal() {
    let spec = parse("dev=midi").unwrap();
    let reparsed = parse(&spec.to_string()).unwrap();
    assert_eq!(spec, reparsed);
}

#[test]
fn display_display_round_trip_minimal() {
    let spec = parse("dev=midi").unwrap();
    let reparsed = parse(&spec.to_string()).unwrap();
    assert_eq!(spec, reparsed);
}

#[test]
fn spec_display_round_trip_full() {
    let spec = parse("dev=midi,grid=T16,swing=T16:80,offset=20,delay=5").unwrap();
    let reparsed = parse(&spec.to_string()).unwrap();
    assert_eq!(spec, reparsed);
}

#[test]
fn display_display_round_trip_full() {
    let spec = parse("dev=midi,grid=T16,swing=T16:80,offset=20,delay=5").unwrap();
    let reparsed = parse(&spec.to_string()).unwrap();
    assert_eq!(spec, reparsed);
}

#[test]
fn spec_display_swing_default_res_omits_resolution() {
    let s = parse("dev=midi,swing=80").unwrap().to_string();
    assert!(s.contains("swing=80"), "got: {s}");
    assert!(!s.contains("swing=t8:"), "got: {s}");
}

#[test]
fn display_display_swing_default_res_omits_resolution() {
    let s = parse("dev=midi,swing=80").unwrap().to_string();
    assert!(s.contains("swing=80"), "got: {s}");
    assert!(!s.contains("swing=t8:"), "got: {s}");
}

#[test]
fn spec_display_swing_explicit_res_includes_resolution() {
    let s = parse("dev=midi,swing=T16:80").unwrap().to_string();
    assert!(s.contains("swing=t16:80"), "got: {s}");
}

#[test]
fn display_display_swing_explicit_res_includes_resolution() {
    let s = parse("dev=midi,swing=T16:80").unwrap().to_string();
    assert!(s.contains("swing=t16:80"), "got: {s}");
}

#[test]
fn spec_display_quotes_values_with_spaces() {
    let spec = parse(r#"dev=midi,out="IAC Bus 1""#).unwrap();
    let s = spec.to_string();
    assert!(s.contains(r#"out="IAC Bus 1""#), "got: {s}");
    assert_eq!(spec, parse(&s).unwrap());
}

#[test]
fn display_display_quotes_values_with_spaces() {
    let spec = parse(r#"dev=midi,out="IAC Bus 1""#).unwrap();
    let s = spec.to_string();
    assert!(s.contains(r#"out="IAC Bus 1""#), "got: {s}");
    assert_eq!(spec, parse(&s).unwrap());
}

#[test]
fn spec_display_quotes_values_with_commas() {
    let spec = parse(r#"dev=midi,out="port,with,commas""#).unwrap();
    let s = spec.to_string();
    assert!(s.contains(r#"out="port,with,commas""#), "got: {s}");
    assert_eq!(spec, parse(&s).unwrap());
}

#[test]
fn display_display_quotes_values_with_commas() {
    let spec = parse(r#"dev=midi,out="port,with,commas""#).unwrap();
    let s = spec.to_string();
    assert!(s.contains(r#"out="port,with,commas""#), "got: {s}");
    assert_eq!(spec, parse(&s).unwrap());
}

#[test]
fn display_round_trip_fractional_us_no_drift() {
    for us in [1, 116, 123, 999, 1_001, 51_123, 300_000_001] {
        let spec = ChannelSpec {
            id: None,
            out: None,
            grid: Grid::ALL[0],
            mode: MidiRole::Clock,
            swing: SwingConfig { resolution: TBase::T8, amount: 0 },
            offset_ticks: 0,
            delay: Micro(us),
            snap_to_quantum_micro: None,
            bars: None,
        };
        let s = spec.to_string();
        let reparsed = parse(&s).unwrap();
        assert_eq!(reparsed.delay, Micro(us), "drift on {us} us (Display: {s})");
    }
}

#[test]
fn display_round_trip_click_with_accent() {
    let spec = ChannelSpec {
        id: Some("kick".to_string()),
        out: Some("port1".to_string()),
        grid: Grid::T8Q,
        mode: MidiRole::Click(MidiClickConfig {
            note: U7(37),
            vel: U7(70),
            ch: U4(9),
            accent: Some(MidiClickAccent { every: NonZeroU32::new(4).unwrap(), note: U7(38), vel: U7(120) }),
        }),
        swing: SwingConfig { resolution: TBase::T16, amount: -3 },
        offset_ticks: -7,
        delay: Micro(1_500),
        snap_to_quantum_micro: Some(-12),
        bars: NonZeroU16::new(3),
    };
    let s = spec.to_string();
    assert_eq!(
        s,
        "dev=midi,grid=t8q,id=kick,out=port1,mode=click,note=37,vel=70,mch=10,accent-every=4,\
accent-vel=120,accent-note=38,swing=t16:-3,offset=-7,delay=1.500,snap-quantum-us=-12,bars=3"
    );
    assert_eq!(parse(&s).unwrap(), spec);
}

#[test]
fn parse_default_mode_is_clock() {
    assert_eq!(parse("dev=midi,grid=t4").unwrap().mode, MidiRole::Clock);
}

#[test]
fn parse_full_click_spec() {
    let s = "dev=midi,mode=click,grid=t4,note=37,vel=80,mch=10,accent-every=4,accent-note=38,accent-vel=120";
    let spec = parse(s).expect("parse");
    let cfg = match spec.mode {
        MidiRole::Click(c) => c,
        other => panic!("expected Click, got {:?}", other),
    };
    assert_eq!(cfg.note, U7(37));
    assert_eq!(cfg.vel, U7(80));
    assert_eq!(cfg.ch, U4(9));
    let accent = cfg.accent.expect("accent set");
    assert_eq!(accent.every.get(), 4);
    assert_eq!(accent.note, U7(38));
    assert_eq!(accent.vel, U7(120));
}

#[test]
fn parse_click_defaults_mch_to_10() {
    let spec = parse("dev=midi,mode=click,grid=t4,note=76,vel=100").unwrap();
    match spec.mode {
        MidiRole::Click(c) => assert_eq!(c.ch, U4(9)),
        _ => panic!(),
    }
}

#[test]
fn parse_click_accent_note_defaults_to_note() {
    let spec = parse("dev=midi,mode=click,grid=t4,note=37,vel=70,accent-every=4,accent-vel=120").unwrap();
    match spec.mode {
        MidiRole::Click(c) => assert_eq!(c.accent.unwrap().note, U7(37)),
        _ => panic!(),
    }
}

#[test]
fn parse_rejects_clock_with_click_keys() {
    match parse("dev=midi,grid=t4,note=42").unwrap_err() {
        ChannelSpecError::BadValue(key, msg) => {
            assert_eq!(key, "note");
            assert!(msg.contains("mode=click"), "got: {msg}");
        }
        other => panic!("unexpected: {:?}", other),
    }
}

#[test]
fn parse_rejects_click_missing_note() {
    assert_eq!(parse("dev=midi,mode=click,grid=t4,vel=80").unwrap_err(), ChannelSpecError::MissingKey("note"));
}

#[test]
fn parse_rejects_click_missing_vel() {
    assert_eq!(parse("dev=midi,mode=click,grid=t4,note=37").unwrap_err(), ChannelSpecError::MissingKey("vel"));
}

#[test]
fn parse_rejects_vel_zero() {
    match parse("dev=midi,mode=click,grid=t4,note=37,vel=0").unwrap_err() {
        ChannelSpecError::BadValue(key, _) => assert_eq!(key, "vel"),
        other => panic!("unexpected: {:?}", other),
    }
}

#[test]
fn parse_rejects_note_above_127() {
    match parse("dev=midi,mode=click,grid=t4,note=200,vel=80").unwrap_err() {
        ChannelSpecError::BadValue(key, msg) => {
            assert_eq!(key, "note");
            assert_eq!(msg, "must be 0..=127, got 200");
        }
        other => panic!("unexpected: {:?}", other),
    }
}

#[test]
fn parse_rejects_mch_zero_or_above_16() {
    match parse("dev=midi,mode=click,grid=t4,note=37,vel=80,mch=0").unwrap_err() {
        ChannelSpecError::BadValue(key, _) => assert_eq!(key, "mch"),
        _ => panic!("expected BadValue"),
    }
    match parse("dev=midi,mode=click,grid=t4,note=37,vel=80,mch=17").unwrap_err() {
        ChannelSpecError::BadValue(key, _) => assert_eq!(key, "mch"),
        _ => panic!("expected BadValue"),
    }
}

#[test]
fn parse_rejects_accent_every_zero() {
    match parse("dev=midi,mode=click,grid=t4,note=37,vel=80,accent-every=0,accent-vel=120").unwrap_err() {
        ChannelSpecError::BadValue(key, _) => assert_eq!(key, "accent-every"),
        _ => panic!("expected BadValue"),
    }
}

#[test]
fn parse_requires_accent_vel_when_accent_every_set() {
    let err = parse("dev=midi,mode=click,grid=t4,note=37,vel=80,accent-every=4").unwrap_err();
    assert_eq!(err, ChannelSpecError::MissingKey("accent-vel"));
}

#[test]
fn parse_accepts_bars_on_any_divider() {
    let spec = parse("dev=midi,grid=t8,bars=3").unwrap();
    assert_eq!(spec.bars, NonZeroU16::new(3));
    assert_eq!(spec.grid, Grid::T8);
}

#[test]
fn parse_rejects_bars_zero() {
    match parse("dev=midi,grid=t1,bars=0").unwrap_err() {
        ChannelSpecError::BadValue(key, _) => assert_eq!(key, "bars"),
        _ => panic!("expected BadValue"),
    }
}

#[test]
fn parse_rejects_bars_above_u16_max() {
    match parse("dev=midi,grid=t1,bars=70000").unwrap_err() {
        ChannelSpecError::BadValue(key, msg) => {
            assert_eq!(key, "bars");
            assert_eq!(msg, "number too large to fit in target type");
        }
        _ => panic!("expected BadValue"),
    }
}

#[test]
fn spec_into_channel_bars_round_trips_via_nonzero() {
    let ch = parse("dev=midi,grid=t1,bars=4").unwrap().into_channel().unwrap();
    assert_eq!(ch.common().bar_multiplier, NonZeroU16::new(4));
}

#[test]
fn validate_into_channel_bars_round_trips_via_nonzero() {
    let ch = parse("dev=midi,grid=t1,bars=4").unwrap().into_channel().unwrap();
    assert_eq!(ch.common().bar_multiplier, NonZeroU16::new(4));
}

#[test]
fn spec_into_channel_click_maps_mch_to_zero_based() {
    let ch = parse("dev=midi,mode=click,grid=t4,note=37,vel=80,mch=10").unwrap().into_channel().unwrap();
    match ch {
        Channel::Midi { role: MidiRole::Click(cfg), .. } => assert_eq!(cfg.ch, U4(9)),
        _ => panic!("expected a MIDI click channel"),
    }
}

#[test]
fn validate_into_channel_click_maps_mch_to_zero_based() {
    let ch = parse("dev=midi,mode=click,grid=t4,note=37,vel=80,mch=10").unwrap().into_channel().unwrap();
    match ch {
        Channel::Midi { role: MidiRole::Click(cfg), .. } => assert_eq!(cfg.ch, U4(9)),
        _ => panic!("expected a MIDI click channel"),
    }
}

#[test]
fn spec_into_channel_click_no_accent_when_accent_every_absent() {
    let ch = parse("dev=midi,mode=click,grid=t4,note=37,vel=80").unwrap().into_channel().unwrap();
    match ch {
        Channel::Midi { role: MidiRole::Click(cfg), .. } => assert!(cfg.accent.is_none()),
        _ => panic!(),
    }
}

#[test]
fn validate_into_channel_click_no_accent_when_accent_every_absent() {
    let ch = parse("dev=midi,mode=click,grid=t4,note=37,vel=80").unwrap().into_channel().unwrap();
    match ch {
        Channel::Midi { role: MidiRole::Click(cfg), .. } => assert!(cfg.accent.is_none()),
        _ => panic!(),
    }
}

#[test]
fn into_channel_rejects_nonzero_offset() {
    let err = parse("dev=midi,offset=20").unwrap().into_channel().unwrap_err();
    assert!(matches!(err, ChannelSpecError::BadValue("offset", _)));
}

#[test]
fn spec_snap_intent_none_when_key_absent() {
    assert!(parse("dev=midi,grid=t4").unwrap().snap_intent().is_none());
}

#[test]
fn validate_snap_intent_none_when_key_absent() {
    assert!(parse("dev=midi,grid=t4").unwrap().snap_intent().is_none());
}

#[test]
fn snap_intent_round_trips_through_spec() {
    for n in [i64::MIN, -1, 0, 1, 42, i64::MAX] {
        let s = format!("dev=midi,grid=t4,snap-quantum-us={n}");
        assert_eq!(parse(&s).unwrap().snap_intent(), Some(Micro(n)));
    }
}

#[test]
fn tokenize_reports_unterminated_quote() {
    let err = parse(r#"dev=midi,out="abc"#).unwrap_err();
    assert_eq!(err, ChannelSpecError::Malformed("unterminated quoted value for `out`".to_string()));
}

#[test]
fn tokenize_reports_empty_key() {
    assert_eq!(parse("=x").unwrap_err(), ChannelSpecError::EmptyKey);
}
