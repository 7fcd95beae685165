use vstd::prelude::*;
use crate::settings::VadSettings;
use crate::vad::{
    ANALYSIS_CHUNK, WindowOutcome, VadEngine, VadModel, VadStep, max_segment_samples, quiet_state, vad_run,
};
use crate::vad::{is_speech, no_event, vad_model_wf};
use crate::vad_laws::{
    all_quiet, all_speech, full_windows, lemma_one_utterance, lemma_quiet_windows,
    lemma_short_burst_discarded, min, ring_cap,
};
use crate::wav::{MAX_WAV_SAMPLE_RATE, base64_of, samples_to_wav_b64, wav_encodable, wav_file};

verus! {

/// Events the capture core sends to the user interface.
#[derive(Clone, Debug, PartialEq, Eq)]
pub enum CaptureEvent {
    /// An utterance has begun (`speech-start`).
    SpeechStart,
    /// An utterance has finished; the payload is its WAV file in base64 (`speech-detected`).
    SpeechDetected(String),
}

pub enum CaptureEventView {
    SpeechStart,
    SpeechDetected(Seq<char>),
}

impl View for CaptureEvent {
    type V = CaptureEventView;

    open spec fn view(&self) -> CaptureEventView {
        match self {
            CaptureEvent::SpeechStart => CaptureEventView::SpeechStart,
            CaptureEvent::SpeechDetected(s) => CaptureEventView::SpeechDetected(s@),
        }
    }
}

/// The complete analysis windows at the front of a sample sequence.
pub open spec fn windows_of(s: Seq<i16>) -> Seq<Seq<i16>> {
    Seq::new(
        s.len() / (ANALYSIS_CHUNK as nat),
        |k: int| s.subrange(k * ANALYSIS_CHUNK, (k + 1) * ANALYSIS_CHUNK),
    )
}

/// What is left over after the complete windows.
pub open spec fn leftover(s: Seq<i16>) -> Seq<i16> {
    s.subrange((s.len() / (ANALYSIS_CHUNK as nat)) * ANALYSIS_CHUNK, s.len() as int)
}

/// The events one step sends: `speech-start` when speech began, then the
/// encoded utterance when one finished and could be encoded (a segment that
/// cannot be encoded is dropped; the session goes on).
pub open spec fn step_events(st: VadStep, sample_rate: u32) -> Seq<CaptureEventView> {
    let start: Seq<CaptureEventView> = if st.started {
        seq![CaptureEventView::SpeechStart]
    } else {
        Seq::empty()
    };
    match st.segment {
        Some(seg) => if wav_encodable(sample_rate as int, seg.len() as int) {
            start.push(
                CaptureEventView::SpeechDetected(base64_of(wav_file(sample_rate as int, seg))),
            )
        } else {
            start
        },
        None => start,
    }
}

pub open spec fn events_of(steps: Seq<VadStep>, sample_rate: u32) -> Seq<CaptureEventView>
    decreases steps.len(),
{
    if steps.len() == 0 {
        Seq::empty()
    } else {
        events_of(steps.drop_last(), sample_rate) + step_events(steps.last(), sample_rate)
    }
}

/// The consumer side of a capture session: gathers incoming samples into
/// analysis windows and runs them through the detector.
pub struct SpeechSegmenter {
    pending: Vec<i16>,
    engine: VadEngine,
}

impl SpeechSegmenter {
    pub closed spec fn spec_pending(&self) -> Seq<i16> {
        self.pending@
    }

    pub closed spec fn spec_engine(&self) -> VadModel {
        self.engine@
    }

    pub closed spec fn spec_sample_rate(&self) -> u32 {
        self.engine.spec_sample_rate()
    }

    pub closed spec fn wf(&self) -> bool {
        self.engine.wf() && self.pending@.len() < ANALYSIS_CHUNK
    }

    pub fn new(sample_rate: u32) -> (r: SpeechSegmenter)
        ensures
            r.wf(),
            r.spec_pending() == Seq::<i16>::empty(),
            r.spec_engine() == quiet_state(Seq::empty()),
            r.spec_sample_rate() == sample_rate,
    {
        SpeechSegmenter { pending: Vec::new(), engine: VadEngine::new(sample_rate) }
    }

    /// Appends samples in arrival order, processes every complete window, and
    /// returns the events those windows produced, in order.
    pub fn push_samples(&mut self, samples: &[i16], settings: &VadSettings) -> (r: Vec<
        CaptureEvent,
    >)
        requires
            old(self).wf(),
            settings.valid(),
        ensures
            final(self).wf(),
            final(self).spec_sample_rate() == old(self).spec_sample_rate(),
            ({
                let s = old(self).spec_pending() + samples@;
                let run = vad_run(
                    old(self).spec_engine(),
                    windows_of(s),
                    *settings,
                    max_segment_samples(old(self).spec_sample_rate()),
                );
                &&& final(self).spec_engine() == run.0
                &&& final(self).spec_pending() == leftover(s)
                &&& r@.map_values(|e: CaptureEvent| e@) == events_of(
                    run.1,
                    old(self).spec_sample_rate(),
                )
            }),
    {
        let ghost s = self.pending@ + samples@;
        let ghost m0 = self.engine@;
        let ghost rate = self.engine.spec_sample_rate();
        let ghost cap = max_segment_samples(rate);
        let ghost ws = windows_of(s);
        let mut all: Vec<i16> = Vec::new();
        copy_into(&mut all, self.pending.as_slice());
        copy_into(&mut all, samples);
        assert(all@ =~= s);
        let sample_rate = self.engine.sample_rate();
        let mut events: Vec<CaptureEvent> = Vec::new();
        let total = all.len();
        let n_windows = total / ANALYSIS_CHUNK;
        let mut k: usize = 0;
        while k < n_windows
            invariant
                all@ == s,
                total == s.len(),
                ws == windows_of(s),
                cap == max_segment_samples(rate),
                n_windows == ws.len(),
                n_windows == s.len() / (ANALYSIS_CHUNK as nat),
                k <= n_windows,
                self.engine.wf(),
                self.engine.spec_sample_rate() == rate,
                sample_rate == rate,
                settings.valid(),
                self.engine@ == vad_run(m0, ws.take(k as int), *settings, cap).0,
                events@.map_values(|e: CaptureEvent| e@) == events_of(
                    vad_run(m0, ws.take(k as int), *settings, cap).1,
                    rate,
                ),
            decreases n_windows - k,
        {
            assert(k * 1024 + 1024 <= s.len()) by (nonlinear_arith)
                requires
                    k < n_windows,
                    n_windows == s.len() / 1024,
            ;
            let window = copy_window(&all, k * ANALYSIS_CHUNK);
            assert((k + 1) * 1024 == k * 1024 + 1024) by (nonlinear_arith);
            assert(ws[k as int] == s.subrange(k * 1024, (k + 1) * 1024));
            assert(window@ =~= ws[k as int]);
            assert(ws.take(k + 1).drop_last() =~= ws.take(k as int));
            assert(ws.take(k + 1).last() == ws[k as int]);
            let ghost prev = vad_run(m0, ws.take(k as int), *settings, cap);
            let outcome = self.engine.process_window(window.as_slice(), settings);
            let ghost st = outcome@;
            push_step_events(&mut events, outcome, sample_rate);
            assert(prev.1.push(st).drop_last() =~= prev.1);
            assert(vad_run(m0, ws.take(k + 1), *settings, cap).1 == prev.1.push(st));
            k = k + 1;
        }
        assert(ws.take(n_windows as int) =~= ws);
        let mut rest: Vec<i16> = Vec::new();
        let mut i: usize = n_windows * ANALYSIS_CHUNK;
        while i < all.len()
            invariant
                all@ == s,
                n_windows * ANALYSIS_CHUNK <= i <= s.len(),
                n_windows == s.len() / (ANALYSIS_CHUNK as nat),
                rest@ == s.subrange(n_windows * ANALYSIS_CHUNK, i as int),
            decreases s.len() - i,
        {
            rest.push(all[i]);
            assert(rest@ =~= s.subrange(n_windows * ANALYSIS_CHUNK, i + 1));
            i = i + 1;
        }
        self.pending = rest;
        events
    }
}

/// The analysis window of `all` that starts at `start`.
fn copy_window(all: &Vec<i16>, start: usize) -> (r: Vec<i16>)
    requires
        start + ANALYSIS_CHUNK <= all@.len(),
    ensures
        r@ == all@.subrange(start as int, start + ANALYSIS_CHUNK),
{
    let mut window: Vec<i16> = Vec::new();
    let n = all.len();
    let mut j: usize = 0;
    while j < ANALYSIS_CHUNK
        invariant
            start + ANALYSIS_CHUNK <= all@.len(),
            n == all@.len(),
            j <= ANALYSIS_CHUNK,
            window@ == all@.subrange(start as int, start + j),
        decreases ANALYSIS_CHUNK - j,
    {
        window.push(all[start + j]);
        assert(window@ =~= all@.subrange(start as int, start + j + 1));
        j = j + 1;
    }
    window
}

/// Appends the events of one step: `speech-start` first, then the encoded
/// utterance if one finished and could be encoded.
fn push_step_events(events: &mut Vec<CaptureEvent>, outcome: WindowOutcome, sample_rate: u32)
    ensures
        final(events)@.map_values(|e: CaptureEvent| e@) == old(events)@.map_values(
            |e: CaptureEvent| e@,
        ) + step_events(outcome@, sample_rate),
{
    if outcome.speech_started {
        events.push(CaptureEvent::SpeechStart);
    }
    match outcome.segment {
        Some(seg) => {
            match samples_to_wav_b64(sample_rate, seg.as_slice()) {
                Ok(payload) => {
                    events.push(CaptureEvent::SpeechDetected(payload));
                },
                Err(_) => {},
            }
        },
        None => {},
    }
    assert(final(events)@.map_values(|e: CaptureEvent| e@) =~= old(events)@.map_values(
        |e: CaptureEvent| e@,
    ) + step_events(outcome@, sample_rate));
}

/// Appends `src` to `dst`, element by element.
fn copy_into(dst: &mut Vec<i16>, src: &[i16])
    ensures
        final(dst)@ == old(dst)@ + src@,
{
    let mut i: usize = 0;
    while i < src.len()
        invariant
            i <= src@.len(),
            dst@ == old(dst)@ + src@.subrange(0, i as int),
        decreases src@.len() - i,
    {
        dst.push(src[i]);
        assert(dst@ =~= old(dst)@ + src@.subrange(0, i + 1));
        i = i + 1;
    }
    assert(src@.subrange(0, src@.len() as int) =~= src@);
}


/// Steps that report nothing send no events.
pub proof fn lemma_quiet_steps_send_nothing(steps: Seq<VadStep>, sample_rate: u32)
    requires
        forall|i: int| 0 <= i < steps.len() ==> #[trigger] steps[i] == no_event(),
    ensures
        events_of(steps, sample_rate) == Seq::<CaptureEventView>::empty(),
    decreases steps.len(),
{
    if steps.len() > 0 {
        let init = steps.drop_last();
        assert forall|i: int| 0 <= i < init.len() implies #[trigger] init[i] == no_event() by {
            assert(init[i] == steps[i]);
        }
        lemma_quiet_steps_send_nothing(init, sample_rate);
        assert(steps[steps.len() - 1] == no_event());
        assert(step_events(steps.last(), sample_rate) =~= Seq::<CaptureEventView>::empty());
        assert(Seq::<CaptureEventView>::empty() + Seq::<CaptureEventView>::empty() =~= Seq::<
            CaptureEventView,
        >::empty());
    }
}

/// A stream of quiet windows, from a quiet detector whose pre-speech ring is
/// within bounds, sends neither `speech-start` nor `speech-detected`, and the
/// ring stays within `pre_speech_chunks` windows throughout.
pub proof fn lemma_quiet_stream_is_silent(
    m: VadModel,
    ws: Seq<Seq<i16>>,
    cfg: VadSettings,
    sample_rate: u32,
)
    requires
        cfg.valid(),
        vad_model_wf(m),
        !m.in_speech,
        m.pre.len() <= ring_cap(cfg),
        all_quiet(ws, cfg),
    ensures
        events_of(vad_run(m, ws, cfg, max_segment_samples(sample_rate)).1, sample_rate)
            == Seq::<CaptureEventView>::empty(),
        forall|k: int|
            0 <= k <= ws.len() ==> (#[trigger] vad_run(
                m,
                ws.take(k),
                cfg,
                max_segment_samples(sample_rate),
            ).0).pre.len() <= ring_cap(cfg),
{
    let cap = max_segment_samples(sample_rate);
    lemma_quiet_windows(m, ws, cfg, cap);
    lemma_quiet_steps_send_nothing(vad_run(m, ws, cfg, cap).1, sample_rate);
    assert forall|k: int| 0 <= k <= ws.len() implies (#[trigger] vad_run(
        m,
        ws.take(k),
        cfg,
        cap,
    ).0).pre.len() <= ring_cap(cfg) by {
        let p = ws.take(k);
        assert forall|i: int| 0 <= i < p.len() implies !is_speech(#[trigger] p[i], cfg) by {
            assert(p[i] == ws[i]);
        }
        lemma_quiet_windows(m, p, cfg, cap);
    }
}


proof fn lemma_events_append(a: Seq<VadStep>, b: Seq<VadStep>, sample_rate: u32)
    ensures
        events_of(a + b, sample_rate) == events_of(a, sample_rate) + events_of(b, sample_rate),
    decreases b.len(),
{
    if b.len() == 0 {
        assert(a + b =~= a);
        assert(events_of(a, sample_rate) + Seq::<CaptureEventView>::empty() =~= events_of(
            a,
            sample_rate,
        ));
    } else {
        lemma_events_append(a, b.drop_last(), sample_rate);
        assert((a + b).drop_last() =~= a + b.drop_last());
        assert((a + b).last() == b.last());
        assert(events_of(a, sample_rate) + events_of(b.drop_last(), sample_rate) + step_events(
            b.last(),
            sample_rate,
        ) =~= events_of(a, sample_rate) + (events_of(b.drop_last(), sample_rate) + step_events(
            b.last(),
            sample_rate,
        )));
    }
}

proof fn lemma_events_single(st: VadStep, sample_rate: u32)
    ensures
        events_of(seq![st], sample_rate) == step_events(st, sample_rate),
{
    assert(seq![st].drop_last() =~= Seq::<VadStep>::empty());
    assert(seq![st].last() == st);
    assert(events_of(Seq::<VadStep>::empty(), sample_rate) == Seq::<CaptureEventView>::empty());
    assert(Seq::<CaptureEventView>::empty() + step_events(st, sample_rate) =~= step_events(
        st,
        sample_rate,
    ));
}

/// The event form of one utterance (see `lemma_one_utterance`): at a sample
/// rate a WAV header can declare, the stream sends exactly `speech-start`
/// and then one `speech-detected` carrying the utterance's WAV file.
pub proof fn lemma_one_utterance_events(
    cfg: VadSettings,
    sample_rate: u32,
    quiet: Seq<Seq<i16>>,
    speech: Seq<Seq<i16>>,
    pause: Seq<Seq<i16>>,
)
    requires
        cfg.valid(),
        0 < sample_rate <= MAX_WAV_SAMPLE_RATE,
        quiet.len() == 30,
        all_quiet(quiet, cfg),
        full_windows(quiet),
        speech.len() == cfg.min_speech_chunks,
        all_speech(speech, cfg),
        full_windows(speech),
        pause.len() == cfg.silence_chunks_to_end,
        all_quiet(pause, cfg),
        full_windows(pause),
        (min(30, cfg.pre_speech_chunks as int) + cfg.min_speech_chunks) * ANALYSIS_CHUNK
            <= max_segment_samples(sample_rate),
    ensures
        ({
            let r = vad_run(
                quiet_state(Seq::empty()),
                quiet + speech + pause,
                cfg,
                max_segment_samples(sample_rate),
            );
            let seg = r.1[r.1.len() - 1].segment->Some_0;
            events_of(r.1, sample_rate) == seq![
                CaptureEventView::SpeechStart,
                CaptureEventView::SpeechDetected(base64_of(wav_file(sample_rate as int, seg))),
            ]
        }),
{
    let cap = max_segment_samples(sample_rate);
    lemma_one_utterance(cfg, cap, quiet, speech, pause);
    let steps = vad_run(quiet_state(Seq::empty()), quiet + speech + pause, cfg, cap).1;
    let n = steps.len() - 1;
    let seg = steps[n].segment->Some_0;
    let a = steps.subrange(0, 30);
    let b = steps.subrange(31, n);
    assert(steps =~= a + seq![steps[30]] + b + seq![steps[n]]);
    assert forall|i: int| 0 <= i < a.len() implies #[trigger] a[i] == no_event() by {
        assert(a[i] == steps[i]);
    }
    assert forall|i: int| 0 <= i < b.len() implies #[trigger] b[i] == no_event() by {
        assert(b[i] == steps[31 + i]);
    }
    lemma_quiet_steps_send_nothing(a, sample_rate);
    lemma_quiet_steps_send_nothing(b, sample_rate);
    lemma_events_append(a, seq![steps[30]], sample_rate);
    lemma_events_append(a + seq![steps[30]], b, sample_rate);
    lemma_events_append(a + seq![steps[30]] + b, seq![steps[n]], sample_rate);
    lemma_events_single(steps[30], sample_rate);
    lemma_events_single(steps[n], sample_rate);
    assert(steps[30] == (VadStep { started: true, segment: None }));
    let kept = min(30, cfg.pre_speech_chunks as int);
    let m = cfg.min_speech_chunks as int;
    let sl = cfg.silence_chunks_to_end as int;
    assert((kept + m + sl - sl / 2) * 1024 <= 3030 * 1024) by (nonlinear_arith)
        requires
            0 <= kept <= 30,
            1 <= m <= 1000,
            1 <= sl <= 2000,
    ;
    assert(step_events(steps[30], sample_rate) =~= seq![CaptureEventView::SpeechStart]);
    assert(wav_encodable(sample_rate as int, seg.len() as int));
    assert(step_events(steps[n], sample_rate) =~= seq![
        CaptureEventView::SpeechDetected(base64_of(wav_file(sample_rate as int, seg))),
    ]);
    assert(events_of(steps, sample_rate) =~= seq![
        CaptureEventView::SpeechStart,
        CaptureEventView::SpeechDetected(base64_of(wav_file(sample_rate as int, seg))),
    ]);
}

/// The event form of a discarded burst (see `lemma_short_burst_discarded`):
/// the stream sends `speech-start` once and no `speech-detected`.
pub proof fn lemma_short_burst_events(
    cfg: VadSettings,
    sample_rate: u32,
    speech: Seq<Seq<i16>>,
    pause: Seq<Seq<i16>>,
)
    requires
        cfg.valid(),
        1 <= speech.len() < cfg.min_speech_chunks,
        all_speech(speech, cfg),
        full_windows(speech),
        pause.len() >= cfg.silence_chunks_to_end,
        all_quiet(pause, cfg),
        full_windows(pause),
        speech.len() * ANALYSIS_CHUNK <= max_segment_samples(sample_rate),
    ensures
        events_of(
            vad_run(quiet_state(Seq::empty()), speech + pause, cfg, max_segment_samples(sample_rate)).1,
            sample_rate,
        ) == seq![CaptureEventView::SpeechStart],
{
    let cap = max_segment_samples(sample_rate);
    lemma_short_burst_discarded(cfg, cap, speech, pause);
    let steps = vad_run(quiet_state(Seq::empty()), speech + pause, cfg, cap).1;
    let b = steps.subrange(1, steps.len() as int);
    assert(steps =~= seq![steps[0]] + b);
    assert forall|i: int| 0 <= i < b.len() implies #[trigger] b[i] == no_event() by {
        assert(b[i] == steps[1 + i]);
    }
    lemma_quiet_steps_send_nothing(b, sample_rate);
    lemma_events_append(seq![steps[0]], b, sample_rate);
    lemma_events_single(steps[0], sample_rate);
    assert(steps[0] == (VadStep { started: true, segment: None }));
    assert(step_events(steps[0], sample_rate) =~= seq![CaptureEventView::SpeechStart]);
    assert(events_of(steps, sample_rate) =~= seq![CaptureEventView::SpeechStart]);
}

} // verus!
