use vstd::prelude::*;
use crate::error::CaptureError;
use crate::settings::VadSettings;
use crate::vad::ANALYSIS_CHUNK;

verus! {

/// The controller's session slot after `start_capture`, and its result.
pub open spec fn start_transition<H>(slot: Option<H>, session: H) -> (Option<H>, Result<(), CaptureError>) {
    match slot {
        Some(live) => (Some(live), Err(CaptureError::AlreadyCapturing)),
        None => (Some(session), Ok(())),
    }
}

/// The controller's session slot after `stop_capture`, and its result.
pub open spec fn stop_transition<H>(slot: Option<H>) -> (Option<H>, Result<H, CaptureError>) {
    match slot {
        Some(live) => (None, Ok(live)),
        None => (None, Err(CaptureError::NotCapturing)),
    }
}

/// Owns the single capture session of the process, of handle type `H`,
/// and the detector settings that new windows are judged by.
pub struct CaptureController<H> {
    session: Option<H>,
    settings: VadSettings,
}

/// A snapshot of the detector configuration, for diagnostics.
#[derive(Clone, Copy, Debug, PartialEq, Eq, Structural)]
pub struct VadStatus {
    pub capturing: bool,
    pub vad_sensitivity_rms: u32,
    pub speech_peak_threshold: u32,
    pub silence_chunks_to_end: usize,
    pub min_speech_chunks: usize,
    pub pre_speech_chunks: usize,
    pub analysis_chunk: usize,
}

impl<H> CaptureController<H> {
    /// The settings in force are always valid ones.
    pub closed spec fn wf(&self) -> bool {
        self.settings.valid()
    }

    pub closed spec fn slot(&self) -> Option<H> {
        self.session
    }

    pub closed spec fn spec_settings(&self) -> VadSettings {
        self.settings
    }

    /// The settings new windows are judged by.
    pub fn settings(&self) -> (r: VadSettings)
        requires
            self.wf(),
        ensures
            r == self.spec_settings(),
            r.valid(),
    {
        self.settings
    }

    /// Installs validated settings; they apply from the next window on.
    pub fn replace_settings(&mut self, settings: VadSettings)
        requires
            settings.valid(),
        ensures
            final(self).wf(),
            final(self).spec_settings() == settings,
            final(self).slot() == old(self).slot(),
    {
        self.settings = settings;
    }

    /// No session, default settings.
    pub fn new() -> (r: CaptureController<H>)
        ensures
            r.wf(),
            r.slot() is None,
            r.spec_settings() == VadSettings::spec_default(),
    {
        CaptureController { session: None, settings: VadSettings::new() }
    }

    pub fn is_capturing(&self) -> (r: bool)
        ensures
            r == self.slot() is Some,
    {
        self.session.is_some()
    }

    /// Stores `session` as the live session; refused while one is live, in
    /// which case nothing changes and `session` is dropped.
    pub fn start_capture(&mut self, session: H) -> (r: Result<(), CaptureError>)
        ensures
            old(self).wf() ==> final(self).wf(),
            (final(self).slot(), r) == start_transition(old(self).slot(), session),
            final(self).spec_settings() == old(self).spec_settings(),
    {
        if self.session.is_some() {
            return Err(CaptureError::AlreadyCapturing);
        }
        self.session = Some(session);
        Ok(())
    }

    /// Releases the live session and hands it back for teardown; without
    /// one, reports `NotCapturing` and changes nothing.
    pub fn stop_capture(&mut self) -> (r: Result<H, CaptureError>)
        ensures
            old(self).wf() ==> final(self).wf(),
            (final(self).slot(), r) == stop_transition(old(self).slot()),
            final(self).spec_settings() == old(self).spec_settings(),
    {
        match self.session.take() {
            Some(live) => Ok(live),
            None => Err(CaptureError::NotCapturing),
        }
    }

    /// The current configuration and whether a session is live.
    pub fn get_vad_status(&self) -> (r: VadStatus)
        ensures
            r == (VadStatus {
                capturing: self.slot() is Some,
                vad_sensitivity_rms: self.spec_settings().vad_sensitivity_rms,
                speech_peak_threshold: self.spec_settings().speech_peak_threshold,
                silence_chunks_to_end: self.spec_settings().silence_chunks_to_end,
                min_speech_chunks: self.spec_settings().min_speech_chunks,
                pre_speech_chunks: self.spec_settings().pre_speech_chunks,
                analysis_chunk: ANALYSIS_CHUNK,
            }),
    {
        VadStatus {
            capturing: self.session.is_some(),
            vad_sensitivity_rms: self.settings.vad_sensitivity_rms,
            speech_peak_threshold: self.settings.speech_peak_threshold,
            silence_chunks_to_end: self.settings.silence_chunks_to_end,
            min_speech_chunks: self.settings.min_speech_chunks,
            pre_speech_chunks: self.settings.pre_speech_chunks,
            analysis_chunk: ANALYSIS_CHUNK,
        }
    }
}

/// Stopping twice in a row: the second stop reports `NotCapturing` and
/// leaves no session, whatever the first one did.
pub proof fn lemma_stop_twice<H>(slot: Option<H>)
    ensures
        stop_transition(stop_transition(slot).0).1 == Err::<H, CaptureError>(CaptureError::NotCapturing),
        stop_transition(stop_transition(slot).0).0 is None,
{
}

/// Starting while a session is live is refused with `AlreadyCapturing` and
/// keeps the live session as it was.
pub proof fn lemma_start_while_capturing<H>(slot: Option<H>, session: H)
    requires
        slot is Some,
    ensures
        start_transition(slot, session).1 == Err::<(), CaptureError>(CaptureError::AlreadyCapturing),
        start_transition(slot, session).0 == slot,
{
}

} // verus!
