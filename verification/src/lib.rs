//! Recording-to-cleaned-text pipeline: a recording session state machine,
//! sample-rate conversion, a PCM waveform codec, and the transcription /
//! cleanup orchestration with its fallback policy.

pub mod cleanup;
pub mod engine;
pub mod history;
pub mod modes;
pub mod resample;
pub mod session;
pub mod text;
pub mod wav;
pub mod workflow;
