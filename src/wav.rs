use vstd::prelude::*;
use base64::Engine;
use crate::error::CaptureError;

verus! {

/// Largest sample rate whose byte rate (two bytes per frame) fits the header's 32-bit field.
pub const MAX_WAV_SAMPLE_RATE: u32 = 0x7fff_ffff;

/// Largest sample count whose data and file sizes fit the header's 32-bit fields.
pub const MAX_WAV_SAMPLES: usize = 0x7fff_ffed;

/// Little-endian bytes of `v`, for `0 <= v < 2^16`.
pub open spec fn le16(v: int) -> Seq<u8> {
    seq![(v % 256) as u8, (v / 256) as u8]
}

/// Little-endian bytes of `v`, for `0 <= v < 2^32`.
pub open spec fn le32(v: int) -> Seq<u8> {
    seq![(v % 256) as u8, ((v / 256) % 256) as u8, ((v / 65536) % 256) as u8, (v / 16777216) as u8]
}

/// The two's complement bit pattern of a sample, as an unsigned 16-bit value.
pub open spec fn sample_bits(s: i16) -> int {
    if s < 0 { s + 65536 } else { s as int }
}

/// The samples as consecutive little-endian 16-bit values.
pub open spec fn pcm_bytes(s: Seq<i16>) -> Seq<u8> {
    Seq::new(2 * s.len(), |i: int| if i % 2 == 0 {
        (sample_bits(s[i / 2]) % 256) as u8
    } else {
        (sample_bits(s[i / 2]) / 256) as u8
    })
}

pub open spec fn tag_riff() -> Seq<u8> { seq![0x52u8, 0x49, 0x46, 0x46] }
pub open spec fn tag_wave() -> Seq<u8> { seq![0x57u8, 0x41, 0x56, 0x45] }
pub open spec fn tag_fmt() -> Seq<u8> { seq![0x66u8, 0x6d, 0x74, 0x20] }
pub open spec fn tag_data() -> Seq<u8> { seq![0x64u8, 0x61, 0x74, 0x61] }

/// The 44-byte header of a mono, 16-bit integer PCM WAVE file holding `n` samples.
pub open spec fn wav_header(rate: int, n: int) -> Seq<u8> {
    tag_riff() + le32(36 + 2 * n) + tag_wave()
        + tag_fmt() + le32(16) + le16(1) + le16(1) + le32(rate) + le32(2 * rate) + le16(2) + le16(16)
        + tag_data() + le32(2 * n)
}

/// A complete mono, 16-bit PCM WAVE file of the samples.
#[verifier::opaque]
pub open spec fn wav_file(rate: int, s: Seq<i16>) -> Seq<u8> {
    wav_header(rate, s.len() as int) + pcm_bytes(s)
}

/// The inputs on which a WAV container can be built.
pub open spec fn wav_encodable(rate: int, n: int) -> bool {
    0 < rate <= MAX_WAV_SAMPLE_RATE && n <= MAX_WAV_SAMPLES
}

/// Reading back: the little-endian values stored at byte `i`.
pub open spec fn le16_at(b: Seq<u8>, i: int) -> int {
    b[i] + 256 * b[i + 1]
}

pub open spec fn le32_at(b: Seq<u8>, i: int) -> int {
    b[i] + 256 * b[i + 1] + 65536 * b[i + 2] + 16777216 * b[i + 3]
}

/// The channel count that a WAVE file declares.
pub open spec fn wav_declared_channels(b: Seq<u8>) -> int {
    le16_at(b, 22)
}

/// The sample rate that a WAVE file declares.
pub open spec fn wav_declared_rate(b: Seq<u8>) -> int {
    le32_at(b, 24)
}

/// The bits per sample that a WAVE file declares.
pub open spec fn wav_declared_bits(b: Seq<u8>) -> int {
    le16_at(b, 34)
}

/// The number of 16-bit samples in the data chunk of a WAVE file.
pub open spec fn wav_sample_count(b: Seq<u8>) -> int {
    le32_at(b, 40) / 2
}

/// The `k`-th 16-bit sample of the data chunk of a WAVE file.
pub open spec fn wav_sample_at(b: Seq<u8>, k: int) -> int {
    let u = le16_at(b, 44 + 2 * k);
    if u >= 32768 { u - 65536 } else { u }
}

pub open spec fn b64_digit(v: int) -> char {
    if v < 26 {
        ((65 + v) as u8) as char
    } else if v < 52 {
        ((97 + v - 26) as u8) as char
    } else if v < 62 {
        ((48 + v - 52) as u8) as char
    } else if v == 62 {
        '+'
    } else {
        '/'
    }
}

/// Standard base64 (alphabet `A-Z a-z 0-9 + /`, padded with `=`).
#[verifier::opaque]
pub open spec fn base64_of(b: Seq<u8>) -> Seq<char>
    decreases b.len(),
{
    if b.len() == 0 {
        Seq::empty()
    } else {
        let b0 = b[0] as int;
        let b1 = if b.len() > 1 { b[1] as int } else { 0 };
        let b2 = if b.len() > 2 { b[2] as int } else { 0 };
        let c0 = b64_digit(b0 / 4);
        let c1 = b64_digit((b0 % 4) * 16 + b1 / 16);
        let c2 = if b.len() > 1 { b64_digit((b1 % 16) * 4 + b2 / 64) } else { '=' };
        let c3 = if b.len() > 2 { b64_digit(b2 % 64) } else { '=' };
        if b.len() <= 3 {
            seq![c0, c1, c2, c3]
        } else {
            seq![c0, c1, c2, c3] + base64_of(b.subrange(3, b.len() as int))
        }
    }
}

#[verifier::external_type_specification]
#[verifier::external_body]
pub struct ExWavError(hound::Error);

/// Relies on hound's `WavWriter` (`new`, `write_sample`, `finalize`) writing a
/// mono 16-bit integer WAVE file into an in-memory cursor: the 44-byte
/// PCMWAVEFORMAT header, then each sample little-endian. Writes to a
/// `Cursor<Vec<u8>>` do not fail; a zero rate would divide by zero and sizes
/// past the 32-bit header fields would overflow, so both are excluded.
#[verifier::external_body]
fn hound_wav_bytes(sample_rate: u32, samples: &[i16]) -> (r: Result<Vec<u8>, hound::Error>)
    requires
        wav_encodable(sample_rate as int, samples@.len() as int),
    ensures
        r is Ok,
        r->Ok_0@ == wav_file(sample_rate as int, samples@),
{
    let mut cursor = std::io::Cursor::new(Vec::new());
    let spec = hound::WavSpec {
        channels: 1,
        sample_rate,
        bits_per_sample: 16,
        sample_format: hound::SampleFormat::Int,
    };
    let mut writer = hound::WavWriter::new(&mut cursor, spec)?;
    for &s in samples {
        writer.write_sample(s)?;
    }
    writer.finalize()?;
    Ok(cursor.into_inner())
}

/// Relies on base64's `STANDARD` engine `encode`: standard alphabet with padding.
#[verifier::external_body]
fn base64_standard(bytes: &[u8]) -> (r: String)
    ensures
        r@ == base64_of(bytes@),
{
    base64::engine::general_purpose::STANDARD.encode(bytes)
}

/// Encodes one finished segment as a mono 16-bit PCM WAVE file and returns it
/// base64-encoded, ready to hand across the process boundary.
pub fn samples_to_wav_b64(sample_rate: u32, samples: &[i16]) -> (r: Result<String, CaptureError>)
    ensures
        wav_encodable(sample_rate as int, samples@.len() as int) ==> (r matches Ok(s)
            && s@ == base64_of(wav_file(sample_rate as int, samples@))),
        !wav_encodable(sample_rate as int, samples@.len() as int) ==> r == Err::<String, _>(
            CaptureError::EncodeFailed,
        ),
{
    if sample_rate == 0 || sample_rate > MAX_WAV_SAMPLE_RATE || samples.len() > MAX_WAV_SAMPLES {
        return Err(CaptureError::EncodeFailed);
    }
    match hound_wav_bytes(sample_rate, samples) {
        Ok(bytes) => Ok(base64_standard(bytes.as_slice())),
        Err(_) => Err(CaptureError::EncodeFailed),
    }
}

proof fn lemma_le16_value(v: int)
    requires
        0 <= v < 0x1_0000,
    ensures
        le16(v).len() == 2,
        le16(v)[0] as int + 256 * (le16(v)[1] as int) == v,
{
}

proof fn lemma_le32_value(v: int)
    requires
        0 <= v < 0x1_0000_0000,
    ensures
        le32(v).len() == 4,
        le32(v)[0] as int + 256 * (le32(v)[1] as int) + 65536 * (le32(v)[2] as int) + 16777216 * (
        le32(v)[3] as int) == v,
{
    assert(v % 256 + 256 * ((v / 256) % 256) + 65536 * ((v / 65536) % 256) + 16777216 * (v / 16777216)
        == v) by (nonlinear_arith)
        requires
            0 <= v < 0x1_0000_0000,
    ;
}

/// Where the header keeps each field: channels at byte 22, rate at 24,
/// bits per sample at 34, data length at 40; the samples start at 44.
proof fn lemma_header_layout(rate: int, n: int)
    requires
        wav_encodable(rate, n),
        0 <= n,
    ensures
        wav_header(rate, n).len() == 44,
        wav_header(rate, n).subrange(22, 24) == le16(1),
        wav_header(rate, n).subrange(24, 28) == le32(rate),
        wav_header(rate, n).subrange(34, 36) == le16(16),
        wav_header(rate, n).subrange(40, 44) == le32(2 * n),
{
    let a = tag_riff() + le32(36 + 2 * n) + tag_wave() + tag_fmt() + le32(16) + le16(1);
    assert(a.len() == 22);
    let b = a + le16(1);
    assert(b.subrange(22, 24) =~= le16(1));
    let c = b + le32(rate);
    assert(c.subrange(24, 28) =~= le32(rate));
    let d = c + le32(2 * rate) + le16(2);
    assert(d.len() == 34);
    let e = d + le16(16);
    assert(e.subrange(34, 36) =~= le16(16));
    let f = e + tag_data();
    let h = f + le32(2 * n);
    assert(h == wav_header(rate, n));
    assert(h.subrange(22, 24) =~= le16(1));
    assert(h.subrange(24, 28) =~= le32(rate));
    assert(h.subrange(34, 36) =~= le16(16));
    assert(h.subrange(40, 44) =~= le32(2 * n));
}

/// Decoding the WAVE file of any samples gives back the declared format,
/// the sample rate, the sample count and every sample.
pub proof fn lemma_wav_round_trip(rate: int, s: Seq<i16>)
    requires
        wav_encodable(rate, s.len() as int),
    ensures
        wav_declared_channels(wav_file(rate, s)) == 1,
        wav_declared_bits(wav_file(rate, s)) == 16,
        wav_declared_rate(wav_file(rate, s)) == rate,
        wav_sample_count(wav_file(rate, s)) == s.len(),
        forall|k: int| 0 <= k < s.len() ==> #[trigger] wav_sample_at(wav_file(rate, s), k) == s[k] as int,
{
    reveal(wav_file);
    let n = s.len() as int;
    let h = wav_header(rate, n);
    let p = pcm_bytes(s);
    let b = wav_file(rate, s);
    lemma_header_layout(rate, n);
    assert(b.subrange(0, 44) =~= h);
    assert(b.subrange(22, 24) == h.subrange(22, 24));
    assert(b.subrange(24, 28) == h.subrange(24, 28));
    assert(b.subrange(34, 36) == h.subrange(34, 36));
    assert(b.subrange(40, 44) == h.subrange(40, 44));
    lemma_le16_value(1);
    lemma_le16_value(16);
    lemma_le32_value(rate);
    lemma_le32_value(2 * n);
    assert(b[22] == le16(1)[0] && b[23] == le16(1)[1]);
    assert(b[34] == le16(16)[0] && b[35] == le16(16)[1]);
    assert(b[24] == le32(rate)[0] && b[25] == le32(rate)[1] && b[26] == le32(rate)[2] && b[27]
        == le32(rate)[3]);
    assert(b[40] == le32(2 * n)[0] && b[41] == le32(2 * n)[1] && b[42] == le32(2 * n)[2] && b[43]
        == le32(2 * n)[3]);
    assert forall|k: int| 0 <= k < n implies #[trigger] wav_sample_at(b, k) == s[k] as int by {
        assert(b[44 + 2 * k] == p[2 * k]);
        assert(b[44 + 2 * k + 1] == p[2 * k + 1]);
        assert((2 * k) / 2 == k);
        assert((2 * k + 1) / 2 == k);
    }
}

/// `n` samples of digital silence.
pub open spec fn silence(n: nat) -> Seq<i16> {
    Seq::new(n, |i: int| 0i16)
}

/// Encoding all-zero samples and decoding the file gives all-zero samples,
/// as many as went in, at the declared rate.
pub proof fn lemma_silence_round_trip(rate: int, n: nat)
    requires
        wav_encodable(rate, n as int),
    ensures
        wav_declared_rate(wav_file(rate, silence(n))) == rate,
        wav_sample_count(wav_file(rate, silence(n))) == n,
        forall|k: int| 0 <= k < n ==> #[trigger] wav_sample_at(wav_file(rate, silence(n)), k) == 0,
{
    lemma_wav_round_trip(rate, silence(n));
}

} // verus!
