use vstd::prelude::*;
use std::collections::VecDeque;
use crate::settings::VadSettings;

verus! {

/// Samples per analysis window.
pub const ANALYSIS_CHUNK: usize = 1024;

/// Full scale of a sample: `i16::MAX` stands for amplitude 1.0.
pub const FULL_SCALE: u64 = 32767;

/// Thresholds are counted in millionths of full scale.
pub const THRESHOLD_UNIT: u64 = 1_000_000;

/// Seconds of audio after which an utterance is cut regardless of silence.
pub const MAX_SEGMENT_SECONDS: u64 = 30;

pub open spec fn abs_sample(s: i16) -> int {
    if s < 0 { -(s as int) } else { s as int }
}

/// Sum of the squared samples.
pub open spec fn sum_squares(w: Seq<i16>) -> int
    decreases w.len(),
{
    if w.len() == 0 {
        0
    } else {
        sum_squares(w.drop_last()) + (w.last() as int) * (w.last() as int)
    }
}

/// Largest absolute sample value (0 for no samples).
pub open spec fn peak(w: Seq<i16>) -> int
    decreases w.len(),
{
    if w.len() == 0 {
        0
    } else {
        let p = peak(w.drop_last());
        if abs_sample(w.last()) > p { abs_sample(w.last()) } else { p }
    }
}

/// `sqrt(sum_squares / n) / FULL_SCALE > threshold / THRESHOLD_UNIT`, squared out.
pub open spec fn rms_exceeds(w: Seq<i16>, threshold: u32) -> bool {
    sum_squares(w) * (THRESHOLD_UNIT * THRESHOLD_UNIT) > (threshold as int) * (threshold as int) * (
    FULL_SCALE * FULL_SCALE) * w.len()
}

/// `peak / FULL_SCALE > threshold / THRESHOLD_UNIT`.
pub open spec fn peak_exceeds(w: Seq<i16>, threshold: u32) -> bool {
    peak(w) * THRESHOLD_UNIT > (threshold as int) * FULL_SCALE
}

/// A window is speech when either its RMS or its peak is above threshold.
pub open spec fn is_speech(w: Seq<i16>, cfg: VadSettings) -> bool {
    rms_exceeds(w, cfg.vad_sensitivity_rms) || peak_exceeds(w, cfg.speech_peak_threshold)
}

proof fn lemma_sum_squares_bound(w: Seq<i16>)
    ensures
        0 <= sum_squares(w) <= w.len() * 0x4000_0000,
    decreases w.len(),
{
    if w.len() > 0 {
        lemma_sum_squares_bound(w.drop_last());
        let x = w.last() as int;
        assert(x * x <= 0x4000_0000) by (nonlinear_arith)
            requires
                -32768 <= x <= 32767,
        ;
        assert(0 <= x * x) by (nonlinear_arith);
    }
}

proof fn lemma_peak_bound(w: Seq<i16>)
    ensures
        0 <= peak(w) <= 32768,
    decreases w.len(),
{
    if w.len() > 0 {
        lemma_peak_bound(w.drop_last());
    }
}

/// Per-window metrics: the sum of squares (for the RMS) and the peak.
pub fn process_chunk(window: &[i16]) -> (r: (u64, u32))
    requires
        window@.len() <= ANALYSIS_CHUNK,
    ensures
        r.0 == sum_squares(window@),
        r.1 == peak(window@),
{
    let mut sumsq: u64 = 0;
    let mut pk: u32 = 0;
    let mut i: usize = 0;
    while i < window.len()
        invariant
            i <= window@.len() <= ANALYSIS_CHUNK,
            sumsq == sum_squares(window@.subrange(0, i as int)),
            pk == peak(window@.subrange(0, i as int)),
        decreases window@.len() - i,
    {
        let v = window[i];
        let ghost prefix = window@.subrange(0, i as int);
        let ghost next = window@.subrange(0, i + 1);
        assert(next.drop_last() =~= prefix);
        proof {
            lemma_sum_squares_bound(next);
            lemma_peak_bound(next);
        }
        let a: u32 = if v < 0 { (-(v as i32)) as u32 } else { v as u32 };
        assert(a as int == abs_sample(v));
        assert((a as int) * (a as int) == (v as int) * (v as int)) by (nonlinear_arith)
            requires
                a as int == abs_sample(v),
        ;
        assert((a as int) * (a as int) <= 0x4000_0000) by (nonlinear_arith)
            requires
                a <= 32768,
        ;
        let sq: u64 = (a as u64) * (a as u64);
        assert(next.last() == v);
        assert(sum_squares(next) == sum_squares(prefix) + (v as int) * (v as int));
        assert(sum_squares(next) <= 1024 * 0x4000_0000) by (nonlinear_arith)
            requires
                sum_squares(next) <= next.len() * 0x4000_0000,
                next.len() <= 1024,
        ;
        sumsq = sumsq + sq;
        if a > pk {
            pk = a;
        }
        i = i + 1;
    }
    assert(window@.subrange(0, window@.len() as int) =~= window@);
    (sumsq, pk)
}

/// Classifies one window against the current thresholds.
pub fn window_is_speech(window: &[i16], settings: &VadSettings) -> (r: bool)
    requires
        window@.len() <= ANALYSIS_CHUNK,
    ensures
        r == is_speech(window@, *settings),
{
    let (sumsq, pk) = process_chunk(window);
    proof {
        lemma_sum_squares_bound(window@);
    }
    let rms_t = settings.vad_sensitivity_rms as u128;
    let peak_t = settings.speech_peak_threshold as u128;
    let n = window.len() as u128;
    let unit = THRESHOLD_UNIT as u128;
    let fs = FULL_SCALE as u128;
    assert(sumsq as int * (unit * unit) <= 0x4000_0000 * 1024 * (1_000_000 * 1_000_000)) by (
    nonlinear_arith)
        requires
            sumsq <= window@.len() * 0x4000_0000,
            window@.len() <= 1024,
            unit == 1_000_000,
            0 <= sumsq,
    ;
    assert(rms_t * rms_t * (fs * fs) * n <= 0x1_0000_0000 * 0x1_0000_0000 * (32767 * 32767) * 1024)
        by (nonlinear_arith)
        requires
            rms_t < 0x1_0000_0000,
            fs == 32767,
            n <= 1024,
    ;
    assert(rms_t * rms_t <= 0x1_0000_0000 * 0x1_0000_0000) by (nonlinear_arith)
        requires
            rms_t < 0x1_0000_0000,
    ;
    let t2 = rms_t * rms_t;
    assert(t2 * (fs * fs) <= 0x1_0000_0000_0000_0000_0000_0000) by (nonlinear_arith)
        requires
            t2 == rms_t * rms_t,
            rms_t < 0x1_0000_0000,
            fs == 32767,
    ;
    let t2s = t2 * (fs * fs);
    assert(t2s * n <= 0x1_0000_0000_0000_0000_0000_0000_0000) by (nonlinear_arith)
        requires
            t2s <= 0x1_0000_0000_0000_0000_0000_0000,
            n <= 1024,
    ;
    let loud = (sumsq as u128) * (unit * unit) > t2s * n;
    let sharp = (pk as u128) * unit > peak_t * fs;
    loud || sharp
}


/// The detector's state: the pre-speech ring, the utterance being collected,
/// whether speech is ongoing, and the run counters.
pub struct VadModel {
    pub pre: Seq<i16>,
    pub buf: Seq<i16>,
    pub in_speech: bool,
    pub silence_run: nat,
    pub speech_run: nat,
}

/// What one window produced: whether speech started, and a finished utterance if any.
pub struct VadStep {
    pub started: bool,
    pub segment: Option<Seq<i16>>,
}

pub open spec fn quiet_state(pre: Seq<i16>) -> VadModel {
    VadModel { pre, buf: Seq::empty(), in_speech: false, silence_run: 0, speech_run: 0 }
}

pub open spec fn no_event() -> VadStep {
    VadStep { started: false, segment: None }
}

/// Drops about half of the closing silence run from the end of an utterance.
pub open spec fn trim_trailing(buf: Seq<i16>, silence_windows: nat) -> Seq<i16> {
    let t = (silence_windows / 2) * ANALYSIS_CHUNK;
    if buf.len() > t { buf.subrange(0, buf.len() - t) } else { buf }
}

/// The newest `cap` samples of `p`.
pub open spec fn keep_newest(p: Seq<i16>, cap: nat) -> Seq<i16> {
    if p.len() > cap { p.subrange(p.len() - cap, p.len() as int) } else { p }
}

/// One window through the state machine; `cap` is the utterance length at
/// which collection is cut short.
pub open spec fn vad_step(m: VadModel, w: Seq<i16>, cfg: VadSettings, cap: nat) -> (VadModel, VadStep) {
    if is_speech(w, cfg) {
        if !m.in_speech {
            let buf = m.pre + w;
            if buf.len() > cap {
                (quiet_state(Seq::empty()), VadStep { started: true, segment: Some(buf) })
            } else {
                (
                    VadModel { pre: Seq::empty(), buf, in_speech: true, silence_run: 0, speech_run: 1 },
                    VadStep { started: true, segment: None },
                )
            }
        } else {
            let buf = m.buf + w;
            if buf.len() > cap {
                (quiet_state(m.pre), VadStep { started: false, segment: Some(buf) })
            } else {
                (
                    VadModel { buf, silence_run: 0, speech_run: m.speech_run + 1, ..m },
                    no_event(),
                )
            }
        }
    } else if m.in_speech {
        let buf = m.buf + w;
        let silence_run = m.silence_run + 1;
        if silence_run >= cfg.silence_chunks_to_end {
            if m.speech_run >= cfg.min_speech_chunks && buf.len() > 0 {
                (
                    quiet_state(m.pre),
                    VadStep {
                        started: false,
                        segment: Some(trim_trailing(buf, cfg.silence_chunks_to_end as nat)),
                    },
                )
            } else {
                (quiet_state(m.pre), no_event())
            }
        } else {
            (VadModel { buf, silence_run, ..m }, no_event())
        }
    } else {
        let ring = keep_newest(m.pre + w, (cfg.pre_speech_chunks * ANALYSIS_CHUNK) as nat);
        (quiet_state(ring), no_event())
    }
}

/// Windows applied in order, one step each.
pub open spec fn vad_run(m: VadModel, ws: Seq<Seq<i16>>, cfg: VadSettings, cap: nat) -> (
    VadModel,
    Seq<VadStep>,
)
    decreases ws.len(),
{
    if ws.len() == 0 {
        (m, Seq::empty())
    } else {
        let prev = vad_run(m, ws.drop_last(), cfg, cap);
        let next = vad_step(prev.0, ws.last(), cfg, cap);
        (next.0, prev.1.push(next.1))
    }
}

/// Outcome of one window: speech started, and the samples of an utterance
/// that finished with it.
pub struct WindowOutcome {
    pub speech_started: bool,
    pub segment: Option<Vec<i16>>,
}

impl View for WindowOutcome {
    type V = VadStep;

    open spec fn view(&self) -> VadStep {
        VadStep {
            started: self.speech_started,
            segment: match self.segment {
                Some(v) => Some(v@),
                None => None,
            },
        }
    }
}

/// The speech/silence state machine over analysis windows.
pub struct VadEngine {
    pre_speech: VecDeque<i16>,
    speech_buffer: Vec<i16>,
    in_speech: bool,
    silence_chunks: usize,
    speech_chunks: usize,
    sample_rate: u32,
}

impl View for VadEngine {
    type V = VadModel;

    closed spec fn view(&self) -> VadModel {
        VadModel {
            pre: self.pre_speech@,
            buf: self.speech_buffer@,
            in_speech: self.in_speech,
            silence_run: self.silence_chunks as nat,
            speech_run: self.speech_chunks as nat,
        }
    }
}

/// Utterance length, in samples, at which collection is cut short.
pub open spec fn max_segment_samples(sample_rate: u32) -> nat {
    (sample_rate * MAX_SEGMENT_SECONDS) as nat
}

/// States that the engine can be in.
pub open spec fn vad_model_wf(m: VadModel) -> bool {
    &&& m.in_speech ==> m.pre.len() == 0 && m.speech_run >= 1 && m.speech_run + m.silence_run
        <= m.buf.len()
    &&& !m.in_speech ==> m.buf.len() == 0 && m.silence_run == 0 && m.speech_run == 0
}

impl VadEngine {
    pub closed spec fn spec_sample_rate(&self) -> u32 {
        self.sample_rate
    }

    pub open spec fn wf(&self) -> bool {
        vad_model_wf(self@)
    }

    /// A quiet engine with an empty pre-speech ring.
    pub fn new(sample_rate: u32) -> (r: VadEngine)
        ensures
            r.wf(),
            r@ == quiet_state(Seq::empty()),
            r.spec_sample_rate() == sample_rate,
    {
        let r = VadEngine {
            pre_speech: VecDeque::new(),
            speech_buffer: Vec::new(),
            in_speech: false,
            silence_chunks: 0,
            speech_chunks: 0,
            sample_rate,
        };
        assert(r@.pre =~= Seq::<i16>::empty());
        assert(r@.buf =~= Seq::<i16>::empty());
        r
    }

    pub fn sample_rate(&self) -> (r: u32)
        ensures
            r == self.spec_sample_rate(),
    {
        self.sample_rate
    }

    /// Whether an utterance is being collected.
    pub fn in_speech(&self) -> (r: bool)
        ensures
            r == self@.in_speech,
    {
        self.in_speech
    }

    /// Samples of audio currently held in the pre-speech ring.
    pub fn pre_speech_len(&self) -> (r: usize)
        ensures
            r == self@.pre.len(),
    {
        self.pre_speech.len()
    }

    /// Hands back the utterance collected so far and returns to quiet.
    fn take_segment(&mut self) -> (r: Vec<i16>)
        ensures
            r@ == old(self)@.buf,
            final(self)@ == quiet_state(old(self)@.pre),
            final(self).sample_rate == old(self).sample_rate,
    {
        let mut seg: Vec<i16> = Vec::new();
        std::mem::swap(&mut seg, &mut self.speech_buffer);
        self.in_speech = false;
        self.silence_chunks = 0;
        self.speech_chunks = 0;
        assert(self@.buf =~= Seq::<i16>::empty());
        seg
    }

    /// Feeds one analysis window through the state machine.
    pub fn process_window(&mut self, window: &[i16], settings: &VadSettings) -> (r: WindowOutcome)
        requires
            old(self).wf(),
            window@.len() == ANALYSIS_CHUNK,
            settings.valid(),
        ensures
            final(self).wf(),
            final(self).spec_sample_rate() == old(self).spec_sample_rate(),
            (final(self)@, r@) == vad_step(
                old(self)@,
                window@,
                *settings,
                max_segment_samples(old(self).spec_sample_rate()),
            ),
    {
        let cap: u64 = self.sample_rate as u64 * MAX_SEGMENT_SECONDS;
        let ghost m = self@;
        let speech = window_is_speech(window, settings);
        if speech {
            let started = !self.in_speech;
            if started {
                let mut i: usize = 0;
                let n = self.pre_speech.len();
                while i < n
                    invariant
                        n == self.pre_speech@.len(),
                        self.pre_speech@ == m.pre,
                        i <= n,
                        self.speech_buffer@ == m.pre.subrange(0, i as int),
                        self.sample_rate == old(self).sample_rate,
                    decreases n - i,
                {
                    self.speech_buffer.push(self.pre_speech[i]);
                    assert(self.speech_buffer@ =~= m.pre.subrange(0, i + 1));
                    i = i + 1;
                }
                assert(self.speech_buffer@ =~= m.pre);
                self.pre_speech.clear();
                assert(self.pre_speech@ =~= Seq::<i16>::empty());
                self.in_speech = true;
                self.silence_chunks = 0;
                self.speech_chunks = 0;
            } else {
                self.silence_chunks = 0;
            }
            append_samples(&mut self.speech_buffer, window);
            let blen = self.speech_buffer.len();
            assert(self.speech_chunks + 1 <= blen);
            self.speech_chunks = self.speech_chunks + 1;
            if self.speech_buffer.len() as u64 > cap {
                let seg = self.take_segment();
                return WindowOutcome { speech_started: started, segment: Some(seg) };
            }
            WindowOutcome { speech_started: started, segment: None }
        } else if self.in_speech {
            append_samples(&mut self.speech_buffer, window);
            let blen = self.speech_buffer.len();
            assert(self.speech_chunks + self.silence_chunks + 1 <= blen);
            self.silence_chunks = self.silence_chunks + 1;
            if self.silence_chunks >= settings.silence_chunks_to_end {
                let emit = self.speech_chunks >= settings.min_speech_chunks && self.speech_buffer.len() > 0;
                let mut seg = self.take_segment();
                if emit {
                    let trim = (settings.silence_chunks_to_end / 2) * ANALYSIS_CHUNK;
                    if seg.len() > trim {
                        let keep = seg.len() - trim;
                        seg.truncate(keep);
                    }
                    return WindowOutcome { speech_started: false, segment: Some(seg) };
                }
                return WindowOutcome { speech_started: false, segment: None };
            }
            WindowOutcome { speech_started: false, segment: None }
        } else {
            let cap_pre = settings.pre_speech_chunks * ANALYSIS_CHUNK;
            let mut i: usize = 0;
            while i < window.len()
                invariant
                    i <= window@.len(),
                    self.pre_speech@ == m.pre + window@.subrange(0, i as int),
                    self.speech_buffer@ == m.buf,
                    self.in_speech == m.in_speech,
                    self.silence_chunks == m.silence_run,
                    self.speech_chunks == m.speech_run,
                    self.sample_rate == old(self).sample_rate,
                decreases window@.len() - i,
            {
                self.pre_speech.push_back(window[i]);
                assert(self.pre_speech@ =~= m.pre + window@.subrange(0, i + 1));
                i = i + 1;
            }
            let ghost p = self.pre_speech@;
            assert(p =~= m.pre + window@);
            while self.pre_speech.len() > cap_pre
                invariant
                    self.pre_speech@.len() <= p.len(),
                    self.pre_speech@ == p.subrange(p.len() - self.pre_speech@.len(), p.len() as int),
                    p.len() > cap_pre ==> self.pre_speech@.len() >= cap_pre,
                    p.len() <= cap_pre ==> self.pre_speech@.len() == p.len(),
                    self.sample_rate == old(self).sample_rate,
                    self.speech_buffer@ == m.buf,
                    self.in_speech == m.in_speech,
                    self.silence_chunks == m.silence_run,
                    self.speech_chunks == m.speech_run,
                decreases self.pre_speech@.len(),
            {
                self.pre_speech.pop_front();
            }
            assert(self.pre_speech@ =~= keep_newest(p, cap_pre as nat));
            assert(m.buf =~= Seq::<i16>::empty());
            WindowOutcome { speech_started: false, segment: None }
        }
    }
}

/// Appends `src` to `dst`, sample by sample.
fn append_samples(dst: &mut Vec<i16>, src: &[i16])
    ensures
        final(dst)@ == old(dst)@ + src@,
{
    let mut i: usize = 0;
    while i < src.len()
        invariant
            i <= src@.len(),
            dst@ == old(dst)@ + src@.subrange(0, i as int),
        decreases src@.len() - i,
    {
        dst.push(src[i]);
        assert(dst@ =~= old(dst)@ + src@.subrange(0, i + 1));
        i = i + 1;
    }
    assert(src@.subrange(0, src@.len() as int) =~= src@);
}

} // verus!
