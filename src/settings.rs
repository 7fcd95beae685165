use vstd::prelude::*;

verus! {

/// Thresholds are given in millionths of full scale (`4000` is an amplitude of 0.004).
pub const DEFAULT_VAD_SENSITIVITY_RMS: u32 = 4000;
pub const DEFAULT_SPEECH_PEAK_THRESHOLD: u32 = 10000;
pub const DEFAULT_SILENCE_WINDOWS: usize = 47;
pub const DEFAULT_MIN_SPEECH_WINDOWS: usize = 15;
pub const DEFAULT_PRE_SPEECH_WINDOWS: usize = 15;

/// Smallest and largest accepted threshold, in millionths of full scale (0.0001 and 0.1).
pub const MIN_THRESHOLD: u32 = 100;
pub const MAX_THRESHOLD: u32 = 100000;
pub const MAX_SILENCE_WINDOWS: usize = 2000;
pub const MAX_MIN_SPEECH_WINDOWS: usize = 1000;
pub const MAX_PRE_SPEECH_WINDOWS: usize = 1000;

/// Runtime-tunable parameters of the voice-activity detector.
#[derive(Clone, Copy, Debug, PartialEq, Eq, Structural)]
pub struct VadSettings {
    /// A window whose RMS exceeds this (millionths of full scale) is speech.
    pub vad_sensitivity_rms: u32,
    /// A window whose peak exceeds this (millionths of full scale) is speech.
    pub speech_peak_threshold: u32,
    /// Consecutive non-speech windows that end an utterance.
    pub silence_chunks_to_end: usize,
    /// Speech windows an utterance needs to be emitted at all.
    pub min_speech_chunks: usize,
    /// Windows of audio kept from before the onset of speech.
    pub pre_speech_chunks: usize,
}

/// Which setting an update was rejected for.
#[derive(Clone, Copy, Debug, PartialEq, Eq, Structural)]
pub enum SettingsError {
    VadSensitivityOutOfRange,
    SpeechThresholdOutOfRange,
    SilenceChunksOutOfRange,
    MinSpeechChunksOutOfRange,
    PreSpeechChunksOutOfRange,
}

pub open spec fn threshold_in_range(v: u32) -> bool {
    MIN_THRESHOLD <= v <= MAX_THRESHOLD
}

pub open spec fn silence_in_range(v: usize) -> bool {
    1 <= v <= MAX_SILENCE_WINDOWS
}

pub open spec fn min_speech_in_range(v: usize) -> bool {
    1 <= v <= MAX_MIN_SPEECH_WINDOWS
}

pub open spec fn pre_speech_in_range(v: usize) -> bool {
    1 <= v <= MAX_PRE_SPEECH_WINDOWS
}

impl VadSettings {
    /// Every field lies in its accepted range.
    pub open spec fn valid(&self) -> bool {
        &&& threshold_in_range(self.vad_sensitivity_rms)
        &&& threshold_in_range(self.speech_peak_threshold)
        &&& silence_in_range(self.silence_chunks_to_end)
        &&& min_speech_in_range(self.min_speech_chunks)
        &&& pre_speech_in_range(self.pre_speech_chunks)
    }

    /// Whether every field lies in its accepted range.
    pub fn is_valid(&self) -> (r: bool)
        ensures
            r == self.valid(),
    {
        MIN_THRESHOLD <= self.vad_sensitivity_rms && self.vad_sensitivity_rms <= MAX_THRESHOLD
            && MIN_THRESHOLD <= self.speech_peak_threshold && self.speech_peak_threshold
            <= MAX_THRESHOLD && 1 <= self.silence_chunks_to_end && self.silence_chunks_to_end
            <= MAX_SILENCE_WINDOWS && 1 <= self.min_speech_chunks && self.min_speech_chunks
            <= MAX_MIN_SPEECH_WINDOWS && 1 <= self.pre_speech_chunks && self.pre_speech_chunks
            <= MAX_PRE_SPEECH_WINDOWS
    }

    pub open spec fn spec_default() -> VadSettings {
        VadSettings {
            vad_sensitivity_rms: DEFAULT_VAD_SENSITIVITY_RMS,
            speech_peak_threshold: DEFAULT_SPEECH_PEAK_THRESHOLD,
            silence_chunks_to_end: DEFAULT_SILENCE_WINDOWS,
            min_speech_chunks: DEFAULT_MIN_SPEECH_WINDOWS,
            pre_speech_chunks: DEFAULT_PRE_SPEECH_WINDOWS,
        }
    }

    pub fn new() -> (r: VadSettings)
        ensures
            r == VadSettings::spec_default(),
            r.valid(),
    {
        VadSettings {
            vad_sensitivity_rms: DEFAULT_VAD_SENSITIVITY_RMS,
            speech_peak_threshold: DEFAULT_SPEECH_PEAK_THRESHOLD,
            silence_chunks_to_end: DEFAULT_SILENCE_WINDOWS,
            min_speech_chunks: DEFAULT_MIN_SPEECH_WINDOWS,
            pre_speech_chunks: DEFAULT_PRE_SPEECH_WINDOWS,
        }
    }
}

impl Default for VadSettings {
    fn default() -> (r: VadSettings)
        ensures
            r == VadSettings::spec_default(),
    {
        VadSettings::new()
    }
}

/// Restores every setting to its default.
pub fn reset_audio_settings(settings: &mut VadSettings)
    ensures
        *final(settings) == VadSettings::spec_default(),
{
    *settings = VadSettings::new();
}

/// Sets the RMS threshold; a value outside `[MIN_THRESHOLD, MAX_THRESHOLD]` is rejected.
pub fn set_vad_sensitivity(settings: &mut VadSettings, value: u32) -> (r: Result<(), SettingsError>)
    ensures
        threshold_in_range(value) ==> r is Ok && *final(settings) == (VadSettings {
            vad_sensitivity_rms: value,
            ..*old(settings)
        }),
        !threshold_in_range(value) ==> r == Err::<(), _>(SettingsError::VadSensitivityOutOfRange)
            && *final(settings) == *old(settings),
{
    if value < MIN_THRESHOLD || value > MAX_THRESHOLD {
        return Err(SettingsError::VadSensitivityOutOfRange);
    }
    settings.vad_sensitivity_rms = value;
    Ok(())
}

/// Sets the peak threshold; a value outside `[MIN_THRESHOLD, MAX_THRESHOLD]` is rejected.
pub fn set_speech_threshold(settings: &mut VadSettings, value: u32) -> (r: Result<(), SettingsError>)
    ensures
        threshold_in_range(value) ==> r is Ok && *final(settings) == (VadSettings {
            speech_peak_threshold: value,
            ..*old(settings)
        }),
        !threshold_in_range(value) ==> r == Err::<(), _>(SettingsError::SpeechThresholdOutOfRange)
            && *final(settings) == *old(settings),
{
    if value < MIN_THRESHOLD || value > MAX_THRESHOLD {
        return Err(SettingsError::SpeechThresholdOutOfRange);
    }
    settings.speech_peak_threshold = value;
    Ok(())
}

/// Sets how many silent windows end an utterance; accepted range `[1, 2000]`.
pub fn set_silence_threshold(settings: &mut VadSettings, chunks: usize) -> (r: Result<(), SettingsError>)
    ensures
        silence_in_range(chunks) ==> r is Ok && *final(settings) == (VadSettings {
            silence_chunks_to_end: chunks,
            ..*old(settings)
        }),
        !silence_in_range(chunks) ==> r == Err::<(), _>(SettingsError::SilenceChunksOutOfRange)
            && *final(settings) == *old(settings),
{
    if chunks < 1 || chunks > MAX_SILENCE_WINDOWS {
        return Err(SettingsError::SilenceChunksOutOfRange);
    }
    settings.silence_chunks_to_end = chunks;
    Ok(())
}

/// Sets the minimum number of speech windows of an emitted utterance; accepted range `[1, 1000]`.
pub fn set_min_speech_duration(settings: &mut VadSettings, chunks: usize) -> (r: Result<(), SettingsError>)
    ensures
        min_speech_in_range(chunks) ==> r is Ok && *final(settings) == (VadSettings {
            min_speech_chunks: chunks,
            ..*old(settings)
        }),
        !min_speech_in_range(chunks) ==> r == Err::<(), _>(SettingsError::MinSpeechChunksOutOfRange)
            && *final(settings) == *old(settings),
{
    if chunks < 1 || chunks > MAX_MIN_SPEECH_WINDOWS {
        return Err(SettingsError::MinSpeechChunksOutOfRange);
    }
    settings.min_speech_chunks = chunks;
    Ok(())
}

/// Sets how many windows before the onset of speech are kept; accepted range `[1, 1000]`.
pub fn set_pre_speech_buffer_size(settings: &mut VadSettings, chunks: usize) -> (r: Result<(), SettingsError>)
    ensures
        pre_speech_in_range(chunks) ==> r is Ok && *final(settings) == (VadSettings {
            pre_speech_chunks: chunks,
            ..*old(settings)
        }),
        !pre_speech_in_range(chunks) ==> r == Err::<(), _>(SettingsError::PreSpeechChunksOutOfRange)
            && *final(settings) == *old(settings),
{
    if chunks < 1 || chunks > MAX_PRE_SPEECH_WINDOWS {
        return Err(SettingsError::PreSpeechChunksOutOfRange);
    }
    settings.pre_speech_chunks = chunks;
    Ok(())
}

} // verus!
