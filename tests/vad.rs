use pluely::{
    process_chunk, window_is_speech, CaptureEvent, SpeechSegmenter, VadEngine, VadSettings,
    ANALYSIS_CHUNK,
};

fn quiet() -> Vec<i16> {
    vec![0i16; ANALYSIS_CHUNK]
}

fn loud() -> Vec<i16> {
    vec![1000i16; ANALYSIS_CHUNK]
}

#[test]
fn chunk_metrics_exact() {
    let w: Vec<i16> = vec![3, -4, 0, -32768];
    let (sumsq, peak) = process_chunk(&w);
    assert_eq!(sumsq, 9 + 16 + 1073741824);
    assert_eq!(peak, 32768);
    assert_eq!(process_chunk(&[]), (0, 0));
}

#[test]
fn speech_test_uses_rms_or_peak() {
    let s = VadSettings::new();
    assert!(!window_is_speech(&quiet(), &s));
    assert!(window_is_speech(&loud(), &s));
    // Peak threshold 0.01 of full scale is 327.67: one sample of 328 trips it.
    let mut w = quiet();
    w[10] = 328;
    assert!(window_is_speech(&w, &s));
    w[10] = 327;
    assert!(!window_is_speech(&w, &s));
    // RMS threshold 0.004 of full scale is about 131.07: a steady 132 trips
    // the RMS test while staying under the peak threshold.
    let steady = vec![132i16; ANALYSIS_CHUNK];
    assert!(window_is_speech(&steady, &s));
    let below = vec![131i16; ANALYSIS_CHUNK];
    assert!(!window_is_speech(&below, &s));
}

#[test]
fn quiet_windows_never_fire_and_ring_is_bounded() {
    let s = VadSettings::new();
    let mut e = VadEngine::new(48000);
    for _ in 0..100 {
        let out = e.process_window(&quiet(), &s);
        assert!(!out.speech_started);
        assert!(out.segment.is_none());
        assert!(e.pre_speech_len() <= s.pre_speech_chunks * ANALYSIS_CHUNK);
    }
    assert_eq!(e.pre_speech_len(), 15 * ANALYSIS_CHUNK);
}

#[test]
fn one_utterance_is_reported_once_with_trimmed_silence() {
    let s = VadSettings::new();
    let mut e = VadEngine::new(48000);
    let mut starts = 0;
    let mut segments: Vec<Vec<i16>> = Vec::new();
    let mut windows: Vec<Vec<i16>> = Vec::new();
    for _ in 0..30 {
        windows.push(quiet());
    }
    for _ in 0..s.min_speech_chunks {
        windows.push(loud());
    }
    for _ in 0..s.silence_chunks_to_end {
        windows.push(quiet());
    }
    for w in &windows {
        let out = e.process_window(w, &s);
        if out.speech_started {
            starts += 1;
        }
        if let Some(seg) = out.segment {
            segments.push(seg);
        }
    }
    assert_eq!(starts, 1);
    assert_eq!(segments.len(), 1);
    let n = segments[0].len();
    // 15 pre-speech + 15 speech + 47 silence windows, less 23 trimmed.
    assert_eq!(n, 54 * ANALYSIS_CHUNK);
    assert!(n < (15 + 47) * ANALYSIS_CHUNK);
    assert!(n > 15 * ANALYSIS_CHUNK);
    assert!(!e.in_speech());
}

#[test]
fn short_burst_is_discarded() {
    let s = VadSettings::new();
    let mut e = VadEngine::new(48000);
    let mut starts = 0;
    let mut segments = 0;
    for i in 0..(5 + 47) {
        let w = if i < 5 { loud() } else { quiet() };
        let out = e.process_window(&w, &s);
        if out.speech_started {
            starts += 1;
        }
        if out.segment.is_some() {
            segments += 1;
        }
    }
    assert_eq!(starts, 1);
    assert_eq!(segments, 0);
    assert!(!e.in_speech());
}

#[test]
fn long_speech_is_cut_at_the_cap() {
    let s = VadSettings::new();
    // 100 Hz: the 30-second cap is 3000 samples, passed by the third window.
    let mut e = VadEngine::new(100);
    let first = e.process_window(&loud(), &s);
    assert!(first.speech_started && first.segment.is_none());
    let second = e.process_window(&loud(), &s);
    assert!(second.segment.is_none());
    let third = e.process_window(&loud(), &s);
    assert_eq!(third.segment.map(|v| v.len()), Some(3 * ANALYSIS_CHUNK));
    assert!(!e.in_speech());
}

#[test]
fn segmenter_emits_start_then_payload() {
    let s = VadSettings::new();
    let mut seg = SpeechSegmenter::new(16000);
    let mut events: Vec<CaptureEvent> = Vec::new();
    // Feed in odd-sized batches to exercise window assembly.
    let mut stream: Vec<i16> = Vec::new();
    for _ in 0..15 {
        stream.extend(loud());
    }
    for _ in 0..47 {
        stream.extend(quiet());
    }
    for batch in stream.chunks(700) {
        events.extend(seg.push_samples(batch, &s));
    }
    assert_eq!(events.len(), 2);
    assert_eq!(events[0], CaptureEvent::SpeechStart);
    match &events[1] {
        CaptureEvent::SpeechDetected(b64) => {
            let expected = pluely::samples_to_wav_b64(16000, &stream[..(15 + 47 - 23) * ANALYSIS_CHUNK]).unwrap();
            assert_eq!(b64, &expected);
        }
        other => panic!("unexpected event {:?}", other),
    }
}

#[test]
fn quiet_stream_sends_nothing() {
    let s = VadSettings::new();
    let mut seg = SpeechSegmenter::new(16000);
    let zeros = vec![0i16; 50 * ANALYSIS_CHUNK + 17];
    assert!(seg.push_samples(&zeros, &s).is_empty());
}
