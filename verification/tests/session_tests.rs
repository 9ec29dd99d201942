use yap_to_text::session::{
    AudioDevice, CapturePlan, DeviceConfig, InputDevice, RecordingSession, StartError, StopError,
};
use yap_to_text::wav::{SampleData, decode_wav};

fn one_device(name: &str, configs: Vec<DeviceConfig>) -> InputDevice {
    InputDevice { name: name.to_string(), configs }
}

fn mono_16k() -> Vec<DeviceConfig> {
    vec![DeviceConfig { channels: 1, max_sample_rate: 16000 }]
}

#[test]
fn new_session_is_idle() {
    let s = RecordingSession::new();
    assert!(!s.is_recording());
    assert_eq!(s.sample_rate, 16000);
    assert!(s.get_selected_device().is_none());
}

#[test]
fn stop_on_idle_session_fails_with_not_recording() {
    let mut s = RecordingSession::new();
    assert_eq!(s.stop(), Err(StopError::NotRecording));
}

#[test]
fn start_after_start_fails_with_already_recording() {
    let mut s = RecordingSession::new();
    let devices = vec![one_device("Mic", mono_16k())];
    let plan = s.start(Some(&devices), Some(0)).expect("first start must succeed");
    assert_eq!(plan, CapturePlan { device_index: 0, channels: 1, sample_rate: 16000 });
    assert!(s.is_recording());
    assert_eq!(s.start(Some(&devices), Some(0)), Err(StartError::AlreadyRecording));
    assert!(s.is_recording());
}

#[test]
fn start_without_enumeration_fails() {
    let mut s = RecordingSession::new();
    assert_eq!(s.start(None, None), Err(StartError::DeviceEnumerationError));
    assert!(!s.is_recording());
}

#[test]
fn start_without_any_device_fails() {
    let mut s = RecordingSession::new();
    let devices: Vec<InputDevice> = Vec::new();
    assert_eq!(s.start(Some(&devices), None), Err(StartError::NoInputDevice));
}

#[test]
fn start_resolves_the_selected_device_by_exact_name() {
    let mut s = RecordingSession::new();
    s.set_input_device(Some("USB Mic".to_string()));
    let devices = vec![
        one_device("Built-in", mono_16k()),
        one_device("USB Mic", vec![DeviceConfig { channels: 1, max_sample_rate: 48000 }]),
    ];
    let plan = s.start(Some(&devices), Some(0)).unwrap();
    assert_eq!(plan.device_index, 1);
    assert_eq!(plan.sample_rate, 48000);
}

#[test]
fn start_with_a_missing_selected_device_fails() {
    let mut s = RecordingSession::new();
    s.set_input_device(Some("Gone".to_string()));
    let devices = vec![one_device("Built-in", mono_16k())];
    assert_eq!(s.start(Some(&devices), Some(0)), Err(StartError::SelectedDeviceNotFound));
}

#[test]
fn start_prefers_a_mono_configuration() {
    let mut s = RecordingSession::new();
    let devices = vec![one_device(
        "Mic",
        vec![
            DeviceConfig { channels: 2, max_sample_rate: 44100 },
            DeviceConfig { channels: 1, max_sample_rate: 48000 },
        ],
    )];
    let plan = s.start(Some(&devices), Some(0)).unwrap();
    assert_eq!(plan.channels, 1);
    assert_eq!(plan.sample_rate, 48000);
    assert_eq!(s.sample_rate, 48000);
}

#[test]
fn start_falls_back_to_the_first_configuration() {
    let mut s = RecordingSession::new();
    let devices = vec![one_device(
        "Mic",
        vec![
            DeviceConfig { channels: 2, max_sample_rate: 44100 },
            DeviceConfig { channels: 4, max_sample_rate: 96000 },
        ],
    )];
    let plan = s.start(Some(&devices), Some(0)).unwrap();
    assert_eq!(plan.channels, 2);
    assert_eq!(plan.sample_rate, 44100);
}

#[test]
fn start_without_configurations_fails() {
    let mut s = RecordingSession::new();
    let devices = vec![one_device("Mic", Vec::new())];
    assert_eq!(s.start(Some(&devices), Some(0)), Err(StartError::NoSupportedConfig));
}

#[test]
fn starting_clears_the_previous_buffer() {
    let mut s = RecordingSession::new();
    let devices = vec![one_device("Mic", mono_16k())];
    s.start(Some(&devices), Some(0)).unwrap();
    s.append_block(&vec![1i16, 2, 3], 1);
    assert_eq!(s.samples, vec![1, 2, 3]);
    s.stop().unwrap();
    assert_eq!(s.samples, vec![1, 2, 3]);
    s.start(Some(&devices), Some(0)).unwrap();
    assert!(s.samples.is_empty());
}

#[test]
fn append_block_downmixes_interleaved_channels() {
    let mut s = RecordingSession::new();
    let devices = vec![one_device("Mic", vec![DeviceConfig { channels: 2, max_sample_rate: 16000 }])];
    s.start(Some(&devices), Some(0)).unwrap();
    s.append_block(&vec![100i16, 200, -100, 300], 2);
    assert_eq!(s.samples, vec![150, 100]);
}

#[test]
fn append_block_on_an_idle_session_is_discarded() {
    let mut s = RecordingSession::new();
    s.append_block(&vec![1i16, 2, 3], 1);
    assert!(s.samples.is_empty());
}

#[test]
fn stop_of_an_empty_capture_fails() {
    let mut s = RecordingSession::new();
    let devices = vec![one_device("Mic", mono_16k())];
    s.start(Some(&devices), Some(0)).unwrap();
    assert_eq!(s.stop(), Err(StopError::EmptyRecording));
    assert!(!s.is_recording());
}

#[test]
fn stop_at_the_canonical_rate_encodes_the_buffer_verbatim() {
    let mut s = RecordingSession::new();
    let devices = vec![one_device("Mic", mono_16k())];
    s.start(Some(&devices), Some(0)).unwrap();
    s.append_block(&vec![10i16, -20, 30], 1);
    let bytes = s.stop().unwrap();
    assert_eq!(bytes.len(), 44 + 6);
    let d = decode_wav(&bytes).unwrap();
    match d.data {
        SampleData::Int(v) => assert_eq!(v, vec![10, -20, 30]),
        SampleData::Float(_) => panic!("expected integer samples"),
    }
}

#[test]
fn stop_resamples_to_the_canonical_rate() {
    let mut s = RecordingSession::new();
    let devices = vec![one_device("Mic", vec![DeviceConfig { channels: 1, max_sample_rate: 8000 }])];
    s.start(Some(&devices), Some(0)).unwrap();
    s.append_block(&vec![0i16; 100], 1);
    let bytes = s.stop().unwrap();
    // 100 samples at 8000 Hz become 200 at 16000 Hz
    assert_eq!(bytes.len(), 44 + 400);
    let d = decode_wav(&bytes).unwrap();
    assert_eq!(d.sample_rate, 16000);
}

#[test]
fn selected_device_persists_across_sessions() {
    let mut s = RecordingSession::new();
    s.set_input_device(Some("USB Mic".to_string()));
    let devices = vec![one_device("USB Mic", mono_16k())];
    s.start(Some(&devices), Some(0)).unwrap();
    s.append_block(&vec![1i16], 1);
    s.stop().unwrap();
    assert_eq!(s.get_selected_device(), Some("USB Mic".to_string()));
    s.set_input_device(None);
    assert!(s.get_selected_device().is_none());
}

#[test]
fn audio_device_id_is_its_name() {
    let d = AudioDevice::from_name("Built-in Microphone");
    assert_eq!(d.id, "Built-in Microphone");
    assert_eq!(d.name, "Built-in Microphone");
}
