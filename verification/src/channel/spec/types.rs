//! The parsed form of a `--ch` spec.

use vstd::prelude::*;
use crate::channel::role::MidiRole;
use crate::fxp::Micro;
use crate::nonzero::NonZeroU16;
use crate::swing::SwingConfig;
use crate::time::Grid;

verus! {

/// A parsed `--ch` spec; every spec targets MIDI.
#[derive(Debug, Clone, PartialEq)]
pub struct ChannelSpec {
    /// Optional identifier other channels' grids can refer to.
    pub id: Option<String>,
    /// Device-specific routing target.
    pub out: Option<String>,
    /// The grid the `grid=` expression denotes.
    pub grid: Grid,
    /// The MIDI role: clock by default, click with `mode=click`.
    pub mode: MidiRole,
    /// Swing; `T8:0` by default.
    pub swing: SwingConfig,
    /// Musical offset in ticks; 0 by default.
    pub offset_ticks: i32,
    /// Delay compensation; never negative from the parser.
    pub delay: Micro,
    /// Optional quantum snap, in microseconds.
    pub snap_to_quantum_micro: Option<i64>,
    /// Keep every `N`-th scheduled event.
    pub bars: Option<NonZeroU16>,
}

/// The view of an optional string.
pub open spec fn opt_view(o: Option<String>) -> Option<Seq<char>> {
    match o {
        Some(s) => Some(s@),
        None => None,
    }
}

/// The mathematical form of a [`ChannelSpec`].
pub struct ChannelSpecV {
    pub id: Option<Seq<char>>,
    pub out: Option<Seq<char>>,
    pub grid: Grid,
    pub mode: MidiRole,
    pub swing: SwingConfig,
    pub offset_ticks: i32,
    pub delay: i64,
    pub snap_to_quantum_micro: Option<i64>,
    pub bars: Option<NonZeroU16>,
}

impl View for ChannelSpec {
    type V = ChannelSpecV;

    open spec fn view(&self) -> ChannelSpecV {
        ChannelSpecV {
            id: opt_view(self.id),
            out: opt_view(self.out),
            grid: self.grid,
            mode: self.mode,
            swing: self.swing,
            offset_ticks: self.offset_ticks,
            delay: self.delay.0,
            snap_to_quantum_micro: self.snap_to_quantum_micro,
            bars: self.bars,
        }
    }
}

impl ChannelSpec {
    /// The `snap-quantum-us` intent, as microseconds.
    pub fn snap_intent(&self) -> (r: Option<Micro>)
        ensures
            r == match self.snap_to_quantum_micro {
                Some(m) => Some(Micro(m)),
                None => None::<Micro>,
            },
    {
        match self.snap_to_quantum_micro {
            Some(m) => Some(Micro(m)),
            None => None,
        }
    }
}

} // verus!
