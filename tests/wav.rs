use base64::Engine;
use pluely::{samples_to_wav_b64, CaptureError};

fn decode(b64: &str) -> Vec<u8> {
    base64::engine::general_purpose::STANDARD.decode(b64).unwrap()
}

#[test]
fn silence_round_trips() {
    let zeros = vec![0i16; 4410];
    let b64 = samples_to_wav_b64(44100, &zeros).unwrap();
    let bytes = decode(&b64);
    let mut reader = hound::WavReader::new(std::io::Cursor::new(bytes)).unwrap();
    let spec = reader.spec();
    assert_eq!(spec.sample_rate, 44100);
    assert_eq!(spec.channels, 1);
    assert_eq!(spec.bits_per_sample, 16);
    let samples: Vec<i16> = reader.samples::<i16>().map(|s| s.unwrap()).collect();
    assert_eq!(samples.len(), 4410);
    assert!(samples.iter().all(|&s| s == 0));
}

#[test]
fn header_and_samples_are_exact() {
    let b64 = samples_to_wav_b64(16000, &[1, -2, 32767, -32768]).unwrap();
    let bytes = decode(&b64);
    assert_eq!(bytes.len(), 44 + 8);
    assert_eq!(&bytes[0..4], b"RIFF");
    assert_eq!(&bytes[4..8], &(36u32 + 8).to_le_bytes());
    assert_eq!(&bytes[8..16], b"WAVEfmt ");
    assert_eq!(&bytes[16..20], &16u32.to_le_bytes());
    assert_eq!(&bytes[20..24], &[1, 0, 1, 0]);
    assert_eq!(&bytes[24..28], &16000u32.to_le_bytes());
    assert_eq!(&bytes[28..32], &32000u32.to_le_bytes());
    assert_eq!(&bytes[32..36], &[2, 0, 16, 0]);
    assert_eq!(&bytes[36..40], b"data");
    assert_eq!(&bytes[40..44], &8u32.to_le_bytes());
    assert_eq!(&bytes[44..], &[1, 0, 0xfe, 0xff, 0xff, 0x7f, 0x00, 0x80]);
}

#[test]
fn base64_of_empty_segment_is_header_only() {
    let b64 = samples_to_wav_b64(8000, &[]).unwrap();
    assert_eq!(b64.len(), 60);
    assert!(b64.starts_with("UklGRi"));
    assert_eq!(decode(&b64).len(), 44);
}

#[test]
fn zero_rate_is_an_encode_failure() {
    assert_eq!(samples_to_wav_b64(0, &[1, 2]), Err(CaptureError::EncodeFailed));
    assert_eq!(samples_to_wav_b64(0x8000_0000, &[1]), Err(CaptureError::EncodeFailed));
}
