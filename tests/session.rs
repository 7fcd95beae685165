use pluely::{CaptureController, CaptureError, VadSettings};

#[test]
fn stop_twice_reports_not_capturing() {
    let mut c: CaptureController<u32> = CaptureController::new();
    assert_eq!(c.start_capture(7), Ok(()));
    assert_eq!(c.stop_capture(), Ok(7));
    assert_eq!(c.stop_capture(), Err(CaptureError::NotCapturing));
    assert!(!c.is_capturing());
}

#[test]
fn stop_without_session_is_recoverable() {
    let mut c: CaptureController<u32> = CaptureController::new();
    assert_eq!(c.stop_capture(), Err(CaptureError::NotCapturing));
    assert_eq!(c.start_capture(1), Ok(()));
    assert!(c.is_capturing());
}

#[test]
fn start_while_capturing_keeps_existing_session() {
    let mut c: CaptureController<u32> = CaptureController::new();
    assert_eq!(c.start_capture(1), Ok(()));
    assert_eq!(c.start_capture(2), Err(CaptureError::AlreadyCapturing));
    assert!(c.is_capturing());
    assert_eq!(c.stop_capture(), Ok(1));
}

#[test]
fn status_reports_settings_and_state() {
    let mut c: CaptureController<u32> = CaptureController::new();
    let mut s = c.settings();
    pluely::set_silence_threshold(&mut s, 100).unwrap();
    c.replace_settings(s);
    c.start_capture(3).unwrap();
    let st = c.get_vad_status();
    assert!(st.capturing);
    assert_eq!(st.silence_chunks_to_end, 100);
    assert_eq!(st.vad_sensitivity_rms, VadSettings::new().vad_sensitivity_rms);
    assert_eq!(st.analysis_chunk, 1024);
}
