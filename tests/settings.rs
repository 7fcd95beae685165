use pluely::{
    reset_audio_settings, set_min_speech_duration, set_pre_speech_buffer_size,
    set_silence_threshold, set_speech_threshold, set_vad_sensitivity, SettingsError, VadSettings,
};

#[test]
fn defaults_match_loopback_constants() {
    let s = VadSettings::new();
    assert_eq!(s.vad_sensitivity_rms, 4000);
    assert_eq!(s.speech_peak_threshold, 10000);
    assert_eq!(s.silence_chunks_to_end, 47);
    assert_eq!(s.min_speech_chunks, 15);
    assert_eq!(s.pre_speech_chunks, 15);
    assert_eq!(VadSettings::default(), s);
}

#[test]
fn valid_updates_read_back_exactly() {
    let mut s = VadSettings::new();
    assert_eq!(set_vad_sensitivity(&mut s, 100), Ok(()));
    assert_eq!(s.vad_sensitivity_rms, 100);
    assert_eq!(set_speech_threshold(&mut s, 100000), Ok(()));
    assert_eq!(s.speech_peak_threshold, 100000);
    assert_eq!(set_silence_threshold(&mut s, 2000), Ok(()));
    assert_eq!(s.silence_chunks_to_end, 2000);
    assert_eq!(set_min_speech_duration(&mut s, 1), Ok(()));
    assert_eq!(s.min_speech_chunks, 1);
    assert_eq!(set_pre_speech_buffer_size(&mut s, 1000), Ok(()));
    assert_eq!(s.pre_speech_chunks, 1000);
}

#[test]
fn invalid_updates_are_rejected_and_keep_prior_value() {
    let mut s = VadSettings::new();
    let before = s;
    assert_eq!(set_vad_sensitivity(&mut s, 99), Err(SettingsError::VadSensitivityOutOfRange));
    assert_eq!(set_vad_sensitivity(&mut s, 100001), Err(SettingsError::VadSensitivityOutOfRange));
    assert_eq!(set_speech_threshold(&mut s, 0), Err(SettingsError::SpeechThresholdOutOfRange));
    assert_eq!(set_silence_threshold(&mut s, 0), Err(SettingsError::SilenceChunksOutOfRange));
    assert_eq!(set_silence_threshold(&mut s, 2001), Err(SettingsError::SilenceChunksOutOfRange));
    assert_eq!(set_min_speech_duration(&mut s, 1001), Err(SettingsError::MinSpeechChunksOutOfRange));
    assert_eq!(set_pre_speech_buffer_size(&mut s, 0), Err(SettingsError::PreSpeechChunksOutOfRange));
    assert_eq!(s, before);
}

#[test]
fn reset_restores_defaults() {
    let mut s = VadSettings::new();
    set_silence_threshold(&mut s, 10).unwrap();
    set_vad_sensitivity(&mut s, 500).unwrap();
    reset_audio_settings(&mut s);
    assert_eq!(s, VadSettings::new());
}
