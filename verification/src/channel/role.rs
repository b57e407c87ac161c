//! Per-target channel roles and the field set every channel shares.

use vstd::prelude::*;
use crate::fxp::Micro;
use crate::midi::{U4, U7};
use crate::nonzero::{NonZeroU16, NonZeroU32};
use crate::swing::SwingConfig;
use crate::time::Grid;

verus! {

/// The fields the scheduler and the transform pipeline read; roles are
/// only consulted when rendering.
#[derive(Copy, Clone, Debug)]
pub struct ChannelCommon {
    /// The grid whose step is the channel's period.
    pub divider: Grid,
    /// Swing applied to the channel's ticks.
    pub shuffle: SwingConfig,
    /// Delay compensation, clamped to `[0, 300 ms]` where it is used.
    pub delay: Micro,
    /// Signed calibration offset.
    pub offset: Micro,
    /// Keep only every `N`-th scheduled event when set.
    pub bar_multiplier: Option<NonZeroU16>,
}

/// What a MIDI channel emits per scheduled tick.
#[derive(Copy, Clone, Debug, Eq, PartialEq, Hash)]
pub enum MidiRole {
    /// `0xF8` timing clock.
    Clock,
    /// Note On with a same-sample Note Off (a click).
    Click(MidiClickConfig),
    /// Continuous controller (not rendered yet).
    Cc(MidiCcConfig),
}

/// Note, velocity (`1..=127` from the spec parser) and zero-based
/// channel of a click.
#[derive(Copy, Clone, Debug, Eq, PartialEq, Hash)]
pub struct MidiClickConfig {
    pub note: U7,
    pub vel: U7,
    pub ch: U4,
    pub accent: Option<MidiClickAccent>,
}

/// Every `every`-th click (counting from the first) uses this note and
/// velocity instead.
#[derive(Copy, Clone, Debug, Eq, PartialEq, Hash)]
pub struct MidiClickAccent {
    pub every: NonZeroU32,
    pub note: U7,
    pub vel: U7,
}

/// Continuous controller number and value range.
#[derive(Copy, Clone, Debug, Eq, PartialEq, Hash)]
pub struct MidiCcConfig {
    pub cc: U7,
    pub range: (U7, U7),
}

/// DIN-sync target role.
#[derive(Copy, Clone, Debug, Eq, PartialEq, Hash)]
pub enum DinRole {
    /// 24 pulses per quarter note.
    Sync24,
}

/// Analog / CV target role.
#[derive(Copy, Clone, Debug, Eq, PartialEq, Hash)]
pub enum CvRole {
    Pulse,
    Lfo,
}

} // verus!
