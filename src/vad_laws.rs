use vstd::prelude::*;
use crate::settings::VadSettings;
use crate::vad::{
    ANALYSIS_CHUNK, VadModel, VadStep, is_speech, no_event, quiet_state, vad_model_wf, vad_run,
    vad_step,
};

verus! {

pub open spec fn all_quiet(ws: Seq<Seq<i16>>, cfg: VadSettings) -> bool {
    forall|i: int| 0 <= i < ws.len() ==> !is_speech(#[trigger] ws[i], cfg)
}

pub open spec fn all_speech(ws: Seq<Seq<i16>>, cfg: VadSettings) -> bool {
    forall|i: int| 0 <= i < ws.len() ==> is_speech(#[trigger] ws[i], cfg)
}

pub open spec fn full_windows(ws: Seq<Seq<i16>>) -> bool {
    forall|i: int| 0 <= i < ws.len() ==> (#[trigger] ws[i]).len() == ANALYSIS_CHUNK
}

/// Capacity of the pre-speech ring, in samples.
pub open spec fn ring_cap(cfg: VadSettings) -> int {
    cfg.pre_speech_chunks * ANALYSIS_CHUNK
}

pub open spec fn min(a: int, b: int) -> int {
    if a <= b { a } else { b }
}

/// Running two window sequences one after the other is running their concatenation.
pub proof fn lemma_run_append(
    m: VadModel,
    a: Seq<Seq<i16>>,
    b: Seq<Seq<i16>>,
    cfg: VadSettings,
    cap: nat,
)
    ensures
        vad_run(m, a + b, cfg, cap).0 == vad_run(vad_run(m, a, cfg, cap).0, b, cfg, cap).0,
        vad_run(m, a + b, cfg, cap).1 == vad_run(m, a, cfg, cap).1 + vad_run(
            vad_run(m, a, cfg, cap).0,
            b,
            cfg,
            cap,
        ).1,
    decreases b.len(),
{
    let ra = vad_run(m, a, cfg, cap);
    if b.len() == 0 {
        assert(a + b =~= a);
        assert(ra.1 + Seq::<VadStep>::empty() =~= ra.1);
    } else {
        lemma_run_append(m, a, b.drop_last(), cfg, cap);
        assert((a + b).drop_last() =~= a + b.drop_last());
        assert((a + b).last() == b.last());
        let rb = vad_run(ra.0, b.drop_last(), cfg, cap);
        let st = vad_step(rb.0, b.last(), cfg, cap);
        assert((ra.1 + rb.1).push(st.1) =~= ra.1 + rb.1.push(st.1));
    }
}

/// Quiet windows from a quiet state: no event of any kind, the detector
/// stays quiet, and the pre-speech ring never holds more than its
/// capacity. From full windows its length is known exactly.
pub proof fn lemma_quiet_windows(m: VadModel, ws: Seq<Seq<i16>>, cfg: VadSettings, cap: nat)
    requires
        cfg.valid(),
        vad_model_wf(m),
        !m.in_speech,
        m.pre.len() <= ring_cap(cfg),
        all_quiet(ws, cfg),
    ensures
        ({
            let r = vad_run(m, ws, cfg, cap);
            &&& !r.0.in_speech
            &&& vad_model_wf(r.0)
            &&& r.0.pre.len() <= ring_cap(cfg)
            &&& r.1.len() == ws.len()
            &&& forall|i: int| 0 <= i < ws.len() ==> #[trigger] r.1[i] == no_event()
            &&& full_windows(ws) ==> r.0.pre.len() == min(
                m.pre.len() + ws.len() * ANALYSIS_CHUNK,
                ring_cap(cfg),
            )
        }),
    decreases ws.len(),
{
    if ws.len() > 0 {
        let init = ws.drop_last();
        assert forall|i: int| 0 <= i < init.len() implies !is_speech(#[trigger] init[i], cfg) by {
            assert(init[i] == ws[i]);
        }
        lemma_quiet_windows(m, init, cfg, cap);
        let prev = vad_run(m, init, cfg, cap);
        let w = ws.last();
        assert(!is_speech(ws[ws.len() - 1], cfg));
        let r = vad_run(m, ws, cfg, cap);
        assert(r.1 == prev.1.push(no_event()));
        assert forall|i: int| 0 <= i < ws.len() implies #[trigger] r.1[i] == no_event() by {
            if i < ws.len() - 1 {
                assert(r.1[i] == prev.1[i]);
            }
        }
        if full_windows(ws) {
            assert(full_windows(init)) by {
                assert forall|i: int| 0 <= i < init.len() implies (#[trigger] init[i]).len()
                    == ANALYSIS_CHUNK by {
                    assert(init[i] == ws[i]);
                }
            }
            assert(w.len() == ANALYSIS_CHUNK);
            assert((ws.len() - 1) * ANALYSIS_CHUNK + ANALYSIS_CHUNK == ws.len() * ANALYSIS_CHUNK)
                by (nonlinear_arith);
        }
    }
}

/// Speech windows from a quiet state, none of which reaches the length cap:
/// speech starts with the first window and nothing else is reported.
pub proof fn lemma_speech_windows(m: VadModel, ws: Seq<Seq<i16>>, cfg: VadSettings, cap: nat)
    requires
        cfg.valid(),
        vad_model_wf(m),
        !m.in_speech,
        ws.len() >= 1,
        all_speech(ws, cfg),
        full_windows(ws),
        m.pre.len() + ws.len() * ANALYSIS_CHUNK <= cap,
    ensures
        ({
            let r = vad_run(m, ws, cfg, cap);
            &&& r.0.in_speech
            &&& vad_model_wf(r.0)
            &&& r.0.pre.len() == 0
            &&& r.0.buf.len() == m.pre.len() + ws.len() * ANALYSIS_CHUNK
            &&& r.0.speech_run == ws.len()
            &&& r.0.silence_run == 0
            &&& r.1.len() == ws.len()
            &&& r.1[0] == (VadStep { started: true, segment: None })
            &&& forall|i: int| 1 <= i < ws.len() ==> #[trigger] r.1[i] == no_event()
        }),
    decreases ws.len(),
{
    let init = ws.drop_last();
    let r = vad_run(m, ws, cfg, cap);
    assert(is_speech(ws[ws.len() - 1], cfg));
    assert(ws[ws.len() - 1].len() == ANALYSIS_CHUNK);
    if ws.len() == 1 {
        assert(init.len() == 0);
        assert(vad_run(m, init, cfg, cap).0 == m);
    } else {
        assert(all_speech(init, cfg)) by {
            assert forall|i: int| 0 <= i < init.len() implies is_speech(#[trigger] init[i], cfg) by {
                assert(init[i] == ws[i]);
            }
        }
        assert(full_windows(init)) by {
            assert forall|i: int| 0 <= i < init.len() implies (#[trigger] init[i]).len()
                == ANALYSIS_CHUNK by {
                assert(init[i] == ws[i]);
            }
        }
        assert((ws.len() - 1) * ANALYSIS_CHUNK + ANALYSIS_CHUNK == ws.len() * ANALYSIS_CHUNK)
            by (nonlinear_arith);
        lemma_speech_windows(m, init, cfg, cap);
        let prev = vad_run(m, init, cfg, cap);
        assert(r.1 == prev.1.push(no_event()));
        assert(r.1[0] == prev.1[0]);
        assert forall|i: int| 1 <= i < ws.len() implies #[trigger] r.1[i] == no_event() by {
            if i < ws.len() - 1 {
                assert(r.1[i] == prev.1[i]);
            }
        }
    }
}

/// Fewer silent windows than end an utterance: speech goes on, nothing is reported.
pub proof fn lemma_pause_windows(m: VadModel, ws: Seq<Seq<i16>>, cfg: VadSettings, cap: nat)
    requires
        cfg.valid(),
        vad_model_wf(m),
        m.in_speech,
        m.silence_run == 0,
        all_quiet(ws, cfg),
        full_windows(ws),
        ws.len() < cfg.silence_chunks_to_end,
    ensures
        ({
            let r = vad_run(m, ws, cfg, cap);
            &&& r.0.in_speech
            &&& vad_model_wf(r.0)
            &&& r.0.pre == m.pre
            &&& r.0.speech_run == m.speech_run
            &&& r.0.silence_run == ws.len()
            &&& r.0.buf.len() == m.buf.len() + ws.len() * ANALYSIS_CHUNK
            &&& r.1.len() == ws.len()
            &&& forall|i: int| 0 <= i < ws.len() ==> #[trigger] r.1[i] == no_event()
        }),
    decreases ws.len(),
{
    if ws.len() > 0 {
        let init = ws.drop_last();
        assert(all_quiet(init, cfg)) by {
            assert forall|i: int| 0 <= i < init.len() implies !is_speech(#[trigger] init[i], cfg) by {
                assert(init[i] == ws[i]);
            }
        }
        assert(full_windows(init)) by {
            assert forall|i: int| 0 <= i < init.len() implies (#[trigger] init[i]).len()
                == ANALYSIS_CHUNK by {
                assert(init[i] == ws[i]);
            }
        }
        lemma_pause_windows(m, init, cfg, cap);
        let prev = vad_run(m, init, cfg, cap);
        assert(!is_speech(ws[ws.len() - 1], cfg));
        assert(ws[ws.len() - 1].len() == ANALYSIS_CHUNK);
        assert((ws.len() - 1) * ANALYSIS_CHUNK + ANALYSIS_CHUNK == ws.len() * ANALYSIS_CHUNK)
            by (nonlinear_arith);
        let r = vad_run(m, ws, cfg, cap);
        assert(r.1 == prev.1.push(no_event()));
        assert forall|i: int| 0 <= i < ws.len() implies #[trigger] r.1[i] == no_event() by {
            if i < ws.len() - 1 {
                assert(r.1[i] == prev.1[i]);
            }
        }
    }
}


/// Thirty quiet windows from a fresh detector, then exactly
/// `min_speech_chunks` speech windows, then exactly `silence_chunks_to_end`
/// quiet windows (no utterance reaching the length cap `cap`): speech starts
/// once, with the first speech window, and exactly one utterance is
/// reported, with the last window. The utterance keeps the pre-speech audio
/// and all speech and drops half of the closing silence, so it is longer
/// than the speech windows alone; it is shorter than speech plus closing
/// silence exactly when the kept pre-speech audio is shorter than the
/// dropped half.
pub proof fn lemma_one_utterance(
    cfg: VadSettings,
    cap: nat,
    quiet: Seq<Seq<i16>>,
    speech: Seq<Seq<i16>>,
    pause: Seq<Seq<i16>>,
)
    requires
        cfg.valid(),
        quiet.len() == 30,
        all_quiet(quiet, cfg),
        full_windows(quiet),
        speech.len() == cfg.min_speech_chunks,
        all_speech(speech, cfg),
        full_windows(speech),
        pause.len() == cfg.silence_chunks_to_end,
        all_quiet(pause, cfg),
        full_windows(pause),
        (min(30, cfg.pre_speech_chunks as int) + cfg.min_speech_chunks) * ANALYSIS_CHUNK <= cap,
    ensures
        ({
            let r = vad_run(quiet_state(Seq::empty()), quiet + speech + pause, cfg, cap);
            let n = r.1.len() - 1;
            let kept = min(30, cfg.pre_speech_chunks as int);
            let m = cfg.min_speech_chunks as int;
            let s = cfg.silence_chunks_to_end as int;
            &&& r.1.len() == 30 + m + s
            &&& r.1[30].started
            &&& forall|i: int| 0 <= i < r.1.len() && i != 30 ==> !(#[trigger] r.1[i]).started
            &&& forall|i: int| 0 <= i < n ==> (#[trigger] r.1[i]).segment is None
            &&& r.1[n].segment is Some
            &&& r.1[n].segment->Some_0.len() == (kept + m + s - s / 2) * ANALYSIS_CHUNK
            &&& r.1[n].segment->Some_0.len() > m * ANALYSIS_CHUNK
            &&& kept < s / 2 ==> r.1[n].segment->Some_0.len() < (m + s) * ANALYSIS_CHUNK
            &&& !r.0.in_speech
        }),
{
    let w = ANALYSIS_CHUNK as int;
    let m0 = quiet_state(Seq::empty());
    let kept = min(30, cfg.pre_speech_chunks as int);
    let m = cfg.min_speech_chunks as int;
    let s = cfg.silence_chunks_to_end as int;
    lemma_quiet_windows(m0, quiet, cfg, cap);
    let r1 = vad_run(m0, quiet, cfg, cap);
    assert(min(30 * w, ring_cap(cfg)) == kept * w);
    assert(r1.0.pre.len() == kept * w);
    assert(kept * w + m * w == (kept + m) * w) by (nonlinear_arith);
    lemma_speech_windows(r1.0, speech, cfg, cap);
    let r2 = vad_run(r1.0, speech, cfg, cap);
    lemma_run_append(m0, quiet, speech, cfg, cap);
    let rest = pause.drop_last();
    assert(all_quiet(rest, cfg)) by {
        assert forall|i: int| 0 <= i < rest.len() implies !is_speech(#[trigger] rest[i], cfg) by {
            assert(rest[i] == pause[i]);
        }
    }
    assert(full_windows(rest)) by {
        assert forall|i: int| 0 <= i < rest.len() implies (#[trigger] rest[i]).len()
            == ANALYSIS_CHUNK by {
            assert(rest[i] == pause[i]);
        }
    }
    lemma_pause_windows(r2.0, rest, cfg, cap);
    let r3 = vad_run(r2.0, rest, cfg, cap);
    let last = pause.last();
    assert(!is_speech(pause[pause.len() - 1], cfg));
    assert(pause[pause.len() - 1].len() == ANALYSIS_CHUNK);
    let st = vad_step(r3.0, last, cfg, cap);
    let buf = r3.0.buf + last;
    assert(buf.len() == kept * w + m * w + (s - 1) * w + w);
    assert(kept * w + m * w + (s - 1) * w + w == (kept + m + s) * w) by (nonlinear_arith);
    assert((s / 2) * w <= s * w) by (nonlinear_arith)
        requires
            s >= 1,
            w == 1024,
    ;
    assert((kept + m + s) * w - (s / 2) * w == (kept + m + s - s / 2) * w) by (nonlinear_arith);
    assert(st.1.segment == Some(buf.subrange(0, buf.len() - (s / 2) * w)));
    assert((kept + m + s - s / 2) * w > m * w) by (nonlinear_arith)
        requires
            kept >= 0,
            s >= 1,
            w == 1024,
    ;
    assert(kept < s / 2 ==> (kept + m + s - s / 2) * w < (m + s) * w) by (nonlinear_arith)
        requires
            w == 1024,
    ;
    let rp = vad_run(r2.0, pause, cfg, cap);
    assert(rp.1 == r3.1.push(st.1));
    lemma_run_append(m0, quiet + speech, pause, cfg, cap);
    let r = vad_run(m0, quiet + speech + pause, cfg, cap);
    assert(r.1 == r1.1 + r2.1 + r3.1.push(st.1));
    let n = r.1.len() - 1;
    assert(n == 30 + m + s - 1);
    assert(r.1[30] == r2.1[0]);
    assert forall|i: int| 0 <= i < r.1.len() && i != 30 implies !(#[trigger] r.1[i]).started by {
        if i < 30 {
            assert(r.1[i] == r1.1[i]);
        } else if i < 30 + m {
            assert(r.1[i] == r2.1[i - 30]);
        } else if i < n {
            assert(r.1[i] == r3.1[i - 30 - m]);
        }
    }
    assert forall|i: int| 0 <= i < n implies (#[trigger] r.1[i]).segment is None by {
        if i < 30 {
            assert(r.1[i] == r1.1[i]);
        } else if i < 30 + m {
            assert(r.1[i] == r2.1[i - 30]);
        } else {
            assert(r.1[i] == r3.1[i - 30 - m]);
        }
    }
}

/// From a fresh detector, fewer speech windows than `min_speech_chunks`
/// followed by at least `silence_chunks_to_end` quiet windows: speech starts
/// once, with the first window, and no utterance is reported at all.
pub proof fn lemma_short_burst_discarded(
    cfg: VadSettings,
    cap: nat,
    speech: Seq<Seq<i16>>,
    pause: Seq<Seq<i16>>,
)
    requires
        cfg.valid(),
        1 <= speech.len() < cfg.min_speech_chunks,
        all_speech(speech, cfg),
        full_windows(speech),
        pause.len() >= cfg.silence_chunks_to_end,
        all_quiet(pause, cfg),
        full_windows(pause),
        speech.len() * ANALYSIS_CHUNK <= cap,
    ensures
        ({
            let r = vad_run(quiet_state(Seq::empty()), speech + pause, cfg, cap);
            &&& r.1.len() == speech.len() + pause.len()
            &&& r.1[0].started
            &&& forall|i: int| 1 <= i < r.1.len() ==> !(#[trigger] r.1[i]).started
            &&& forall|i: int| 0 <= i < r.1.len() ==> (#[trigger] r.1[i]).segment is None
            &&& !r.0.in_speech
        }),
{
    let m0 = quiet_state(Seq::empty());
    let s = cfg.silence_chunks_to_end as int;
    lemma_speech_windows(m0, speech, cfg, cap);
    let r2 = vad_run(m0, speech, cfg, cap);
    let closing = pause.take(s);
    let after = pause.skip(s);
    assert(pause =~= closing + after);
    let rest = closing.drop_last();
    assert(all_quiet(rest, cfg)) by {
        assert forall|i: int| 0 <= i < rest.len() implies !is_speech(#[trigger] rest[i], cfg) by {
            assert(rest[i] == pause[i]);
        }
    }
    assert(full_windows(rest)) by {
        assert forall|i: int| 0 <= i < rest.len() implies (#[trigger] rest[i]).len()
            == ANALYSIS_CHUNK by {
            assert(rest[i] == pause[i]);
        }
    }
    lemma_pause_windows(r2.0, rest, cfg, cap);
    let r3 = vad_run(r2.0, rest, cfg, cap);
    assert(closing.last() == pause[s - 1]);
    assert(!is_speech(closing.last(), cfg));
    let st = vad_step(r3.0, closing.last(), cfg, cap);
    assert(st.1 == no_event());
    let rc = vad_run(r2.0, closing, cfg, cap);
    assert(rc.1 == r3.1.push(st.1));
    assert(r3.0.pre =~= Seq::<i16>::empty());
    assert(rc.0 == st.0);
    assert(rc.0 == quiet_state(Seq::empty()));
    assert(all_quiet(after, cfg)) by {
        assert forall|i: int| 0 <= i < after.len() implies !is_speech(#[trigger] after[i], cfg) by {
            assert(after[i] == pause[s + i]);
        }
    }
    lemma_quiet_windows(rc.0, after, cfg, cap);
    let ra = vad_run(rc.0, after, cfg, cap);
    lemma_run_append(r2.0, closing, after, cfg, cap);
    lemma_run_append(m0, speech, pause, cfg, cap);
    let r = vad_run(m0, speech + pause, cfg, cap);
    let k = speech.len() as int;
    assert(r.1 == r2.1 + (r3.1.push(st.1) + ra.1));
    assert(r.1[0] == r2.1[0]);
    assert forall|i: int| 0 <= i < r.1.len() implies {
        &&& (i >= 1 ==> !(#[trigger] r.1[i]).started)
        &&& r.1[i].segment is None
    } by {
        if i < k {
            assert(r.1[i] == r2.1[i]);
        } else if i < k + s {
            assert(r.1[i] == r3.1.push(st.1)[i - k]);
            if i < k + s - 1 {
                assert(r3.1.push(st.1)[i - k] == r3.1[i - k]);
            }
        } else {
            assert(r.1[i] == ra.1[i - k - s]);
        }
    }
}

} // verus!
