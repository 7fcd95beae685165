//! Loopback audio capture core: voice-activity segmentation of a mono
//! sample stream, 16-bit WAV encoding of finished segments, the hand-off
//! between the capture thread and its consumer, capture-device selection,
//! and the single-session capture controller.
//!
//! Samples are signed 16-bit PCM values; full scale is `i16::MAX`, so a
//! sample `s` stands for the amplitude `s / 32767`.
pub mod bridge;
pub mod device;
pub mod error;
pub mod license;
pub mod segmenter;
pub mod session;
pub mod settings;
pub mod speaker;
pub mod vad;
pub mod vad_laws;
pub mod wav;
pub mod window;

pub use bridge::{downmix_to_mono, packet_to_mono, PollResult, SampleBridge};
pub use device::{
    choose_device, score_device_name, score_lowercase_name, select_system_audio_device,
    DeviceChoice, Platform,
};
pub use error::CaptureError;
pub use license::{
    activation_request, audio_request, get_stored_credentials, mask_license_key_cmd,
    secure_storage_get, secure_storage_remove, secure_storage_save, ActivationRequest,
    AudioRequest, SecureStorage, StorageError, StorageItem, StorageResult,
};
pub use segmenter::{CaptureEvent, SpeechSegmenter};
pub use session::{CaptureController, VadStatus};
pub use settings::{
    reset_audio_settings, set_min_speech_duration, set_pre_speech_buffer_size,
    set_silence_threshold, set_speech_threshold, set_vad_sensitivity, SettingsError, VadSettings,
};
pub use speaker::{monitor_source_name, SpeakerInput};
pub use vad::{process_chunk, window_is_speech, VadEngine, WindowOutcome, ANALYSIS_CHUNK};
pub use wav::samples_to_wav_b64;
pub use window::WindowVisibility;
