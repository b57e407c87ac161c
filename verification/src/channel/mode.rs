//! The flat enumeration of per-channel output modes, with raw byte
//! fields.

use vstd::prelude::*;
use crate::nonzero::NonZeroU32;

verus! {

/// Per-channel output mode.
#[derive(Copy, Clone, Debug, Eq, PartialEq, Hash)]
pub enum ChannelMode {
    /// MIDI timing clock bytes.
    MidiClock,
    /// DIN sync24 pulse stream.
    Din,
    /// One analog pulse per tick.
    AnalogPulse,
    /// A continuous analog waveform.
    AnalogLfo,
    /// MIDI continuous controller; `cc` and `range` in `0..=127`.
    MidiCc { cc: u8, range: (u8, u8) },
    /// Per-tick metronome trigger.
    Click(ClickConfig),
}

/// Output-specific configuration of a click.
#[derive(Copy, Clone, Debug, Eq, PartialEq, Hash)]
pub enum ClickConfig {
    /// A MIDI Note On and Note Off per tick.
    Midi(MidiClickConfig),
}

/// MIDI click: note and velocity in `0..=127`, zero-based channel.
#[derive(Copy, Clone, Debug, Eq, PartialEq, Hash)]
pub struct MidiClickConfig {
    pub note: u8,
    pub vel: u8,
    pub ch: u8,
    pub accent: Option<MidiClickAccent>,
}

/// Every `every`-th click uses this note and velocity.
#[derive(Copy, Clone, Debug, Eq, PartialEq, Hash)]
pub struct MidiClickAccent {
    pub every: NonZeroU32,
    pub note: u8,
    pub vel: u8,
}

} // verus!
