//! The decisions of a desktop live-captioning assistant: transcripts, local speech models,
//! recordings, speaker labels, provider requests, downloads and window captures.

pub mod assistant;
pub mod audio_capture;
pub mod audio_processes;
pub mod downloads;
pub mod float_bits;
pub mod inference;
pub mod model_runtime;
pub mod model_setup;
pub mod numbers;
pub mod ordering;
pub mod realtime_speakers;
pub mod recording_export;
pub mod recording_store;
pub mod settings;
pub mod speaker_diarization;
pub mod speech_model;
pub mod text;
pub mod transcript;
pub mod translation;
pub mod utc_time;
pub mod vision;
