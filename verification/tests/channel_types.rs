use agogo_core::channel::mode::{ChannelMode, ClickConfig};
use agogo_core::channel::role::{CvRole, DinRole, MidiCcConfig, MidiClickAccent, MidiClickConfig, MidiRole};
use agogo_core::midi::{U4, U7};
use agogo_core::nonzero::NonZeroU32;

#[test]
fn all_variants_constructible() {
    let click_no_accent = ChannelMode::Click(ClickConfig::Midi(agogo_core::channel::mode::MidiClickConfig {
        note: 76,
        vel: 100,
        ch: 9,
        accent: None,
    }));
    let click_with_accent = ChannelMode::Click(ClickConfig::Midi(agogo_core::channel::mode::MidiClickConfig {
        note: 37,
        vel: 70,
        ch: 9,
        accent: Some(agogo_core::channel::mode::MidiClickAccent {
            every: NonZeroU32::new(4).unwrap(),
            note: 38,
            vel: 120,
        }),
    }));
    let modes = [
        ChannelMode::MidiClock,
        ChannelMode::Din,
        ChannelMode::AnalogPulse,
        ChannelMode::AnalogLfo,
        ChannelMode::MidiCc { cc: 74, range: (0, 127) },
        click_no_accent,
        click_with_accent,
    ];
    for m in modes {
        match m {
            ChannelMode::MidiClock
            | ChannelMode::Din
            | ChannelMode::AnalogPulse
            | ChannelMode::AnalogLfo
            | ChannelMode::MidiCc { .. }
            | ChannelMode::Click(_) => {}
        }
    }
}

#[test]
fn all_role_variants_constructible() {
    let _ = MidiRole::Clock;
    let _ = MidiRole::Click(MidiClickConfig { note: U7(76), vel: U7(100), ch: U4(9), accent: None });
    let _ = MidiRole::Click(MidiClickConfig {
        note: U7(37),
        vel: U7(70),
        ch: U4(9),
        accent: Some(MidiClickAccent { every: NonZeroU32::new(4).unwrap(), note: U7(38), vel: U7(120) }),
    });
    let _ = MidiRole::Cc(MidiCcConfig { cc: U7(74), range: (U7(0), U7(127)) });
    let _ = DinRole::Sync24;
    let _ = CvRole::Pulse;
    let _ = CvRole::Lfo;
}
