//! Values exchanged with the audio-clock synchronisation stage (peak
//! detection and the phase-locked loop).

use vstd::prelude::*;
use crate::fxp::{Phase, Tempo};

verus! {

/// Peak detector tuning.
#[derive(Debug, Clone, Copy, PartialEq, Eq, Structural)]
pub struct DetectorConfig {
    /// Minimum amplitude of a peak, as Q0.15 of full scale (`16_384`
    /// is one half).
    pub threshold_q15: u16,
    /// Minimum distance in samples between two emitted peaks.
    pub hold_samples: u32,
}

/// One update of the phase-locked loop: the tempo and phase it
/// estimates.
#[derive(Debug, Clone, Copy, PartialEq)]
pub struct PllOutput {
    pub bpm: Tempo,
    pub phase: Phase,
}

} // verus!
