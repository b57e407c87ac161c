//! What the library shares with an audio back-end: the stream
//! configuration, the opaque handle that owns a running stream, and the
//! errors a back-end reports.

use vstd::prelude::*;
use crate::text::{push_str, push_u64};

verus! {

/// Stream configuration for an audio back-end.
#[derive(Debug, Clone)]
pub struct Config {
    /// Input device name; `None` selects the default input.
    pub input_device: Option<String>,
    /// Output device name; `None` selects the default output.
    pub output_device: Option<String>,
    /// Target sample rate.
    pub sample_rate: u32,
    /// Target buffer size in frames.
    pub buffer_frames: u32,
    pub input_channels: u16,
    pub output_channels: u16,
}

/// Anything a back-end can hand over for a stream's lifetime: owned
/// (`'static`) and movable across threads.
pub trait StreamPayload: Send {}

impl<T: Send + 'static> StreamPayload for T {}

/// Opaque stream handle: it owns a back-end's payload (a stream, a
/// client) and drops it when dropped, which tears the stream down.
pub struct Handle {
    payload: Box<dyn StreamPayload>,
}

impl Handle {
    /// Take ownership of a back-end payload.
    pub fn from_payload<T: Send + 'static>(payload: T) -> Handle {
        Handle { payload: Box::new(payload) }
    }
}

/// Errors an audio back-end can report.
#[derive(Debug)]
pub enum AudioHostError {
    NoInputDevice,
    DeviceNotFound(String),
    /// The requested sample rate is in none of the device's ranges.
    UnsupportedSampleRate(u32),
    /// The rate is supported but not the whole configuration.
    UnsupportedConfig(String),
    /// A back-end specific failure, as its message.
    Backend(String),
}

/// The message of an audio host error.
pub open spec fn audio_error_text(e: AudioHostError) -> Seq<char> {
    match e {
        AudioHostError::NoInputDevice => "no default input device"@,
        AudioHostError::DeviceNotFound(d) => "device not found: "@ + d@,
        AudioHostError::UnsupportedSampleRate(r) => "unsupported sample rate: "@ + crate::text::nat_decimal(
            r as nat,
        ),
        AudioHostError::UnsupportedConfig(c) => "unsupported config: "@ + c@,
        AudioHostError::Backend(m) => "back-end: "@ + m@,
    }
}

impl AudioHostError {
    /// The human-readable message.
    pub fn to_string(&self) -> (s: String)
        ensures
            s@ == audio_error_text(*self),
    {
        let mut s = String::new();
        match self {
            AudioHostError::NoInputDevice => push_str(&mut s, "no default input device"),
            AudioHostError::DeviceNotFound(d) => {
                push_str(&mut s, "device not found: ");
                push_str(&mut s, d.as_str());
            },
            AudioHostError::UnsupportedSampleRate(r) => {
                push_str(&mut s, "unsupported sample rate: ");
                push_u64(&mut s, *r as u64);
            },
            AudioHostError::UnsupportedConfig(c) => {
                push_str(&mut s, "unsupported config: ");
                push_str(&mut s, c.as_str());
            },
            AudioHostError::Backend(m) => {
                push_str(&mut s, "back-end: ");
                push_str(&mut s, m.as_str());
            },
        }
        s
    }
}

} // verus!
