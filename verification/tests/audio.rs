use agogo_core::audio::{AudioHostError, Config, Handle};
use std::sync::Arc;
use std::sync::atomic::{AtomicBool, Ordering};

struct Witness {
    flag: Arc<AtomicBool>,
}

impl Drop for Witness {
    fn drop(&mut self) {
        self.flag.store(true, Ordering::SeqCst);
    }
}

#[test]
fn handle_drops_payload() {
    let flag = Arc::new(AtomicBool::new(false));
    let handle = Handle::from_payload(Witness { flag: Arc::clone(&flag) });
    assert!(!flag.load(Ordering::SeqCst));
    drop(handle);
    assert!(flag.load(Ordering::SeqCst));
}

#[test]
fn audio_host_error_variants_constructible() {
    let errs = [
        AudioHostError::NoInputDevice,
        AudioHostError::DeviceNotFound("x".into()),
        AudioHostError::UnsupportedSampleRate(12_345),
        AudioHostError::UnsupportedConfig("no f32 at 48 kHz".into()),
        AudioHostError::Backend("stub".into()),
    ];
    for e in errs {
        match e {
            AudioHostError::NoInputDevice
            | AudioHostError::DeviceNotFound(_)
            | AudioHostError::UnsupportedSampleRate(_)
            | AudioHostError::UnsupportedConfig(_)
            | AudioHostError::Backend(_) => {}
        }
    }
}

#[test]
fn audio_host_error_messages() {
    assert_eq!(AudioHostError::NoInputDevice.to_string(), "no default input device");
    assert_eq!(AudioHostError::DeviceNotFound("mic".into()).to_string(), "device not found: mic");
    assert_eq!(AudioHostError::UnsupportedSampleRate(12_345).to_string(), "unsupported sample rate: 12345");
    assert_eq!(AudioHostError::UnsupportedConfig("mono".into()).to_string(), "unsupported config: mono");
    assert_eq!(AudioHostError::Backend("stub".into()).to_string(), "back-end: stub");
}

#[test]
fn config_holds_its_fields() {
    let cfg = Config {
        input_device: None,
        output_device: Some("out".into()),
        sample_rate: 48_000,
        buffer_frames: 256,
        input_channels: 1,
        output_channels: 0,
    };
    let copy = cfg.clone();
    assert_eq!(copy.sample_rate, 48_000);
    assert_eq!(copy.output_device.as_deref(), Some("out"));
}
