//! Per-channel configuration and the per-channel transform pipeline.

pub mod mode;
pub mod role;
pub mod transform;
pub mod pipeline_laws;

pub use role::{ChannelCommon, CvRole, DinRole, MidiCcConfig, MidiClickAccent, MidiClickConfig, MidiRole};
pub use transform::{transform, Channel, ScheduledEvent, MAX_DELAY_US};
pub mod spec;
