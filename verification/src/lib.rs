//! Timing kernel: musical grid algebra, fixed-point time, the grid
//! expression language, per-channel scheduling and MIDI rendering.

pub mod time;
pub mod text;
pub mod fxp;
pub mod sample_tick;
pub mod notation;
pub mod swing;
pub mod dsl;
pub mod midi;
pub mod nonzero;
pub mod preorder;
pub mod channel;
pub mod event;
pub mod buffer_laws;
pub mod bar_laws;
pub mod out_midi;
pub mod stop;
pub mod transport;
pub mod bridge;
pub mod audio;
pub mod sync;
