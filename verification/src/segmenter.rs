//! The speech segmenter: a timing-based state machine over the voice-activity
//! detector that turns a stream of audio chunks into discrete, gain-adjusted
//! speech segments.
//!
//! Each arriving chunk drives one step of the machine.  The caller supplies
//! the arrival time in milliseconds; silence must persist for a configured
//! duration before a segment is closed and emitted.  Gain is applied only at
//! emission, so amplification cannot distort the detector's own judgment.

use crate::vad::{
    all_samples_in_range, spec_classify, spec_level, VoiceActivityDetector,
};
use vstd::arithmetic::div_mod::lemma_div_is_ordered;
use vstd::prelude::*;

verus! {

#[derive(Debug, Clone, Copy, PartialEq, Eq, Structural)]
pub enum SpeechState {
    Idle,
    Speaking,
    SilenceDetected,
}

/// The mathematical state of a segmenter: everything that changes from one
/// chunk to the next.
#[verifier::ext_equal]
pub struct SegModel {
    pub state: SpeechState,
    pub speech_start: Option<int>,
    pub silence_start: Option<int>,
    pub buffer: Seq<i32>,
}

/// The fixed configuration of a segmenter.
#[verifier::ext_equal]
pub struct SegParams {
    pub threshold_start: int,
    pub threshold_stop: int,
    pub silence_duration: int,
    pub gain: int,
}

/// The state a segmenter starts in: idle, with an empty buffer.
pub open spec fn initial_seg_model() -> SegModel {
    SegModel {
        state: SpeechState::Idle,
        speech_start: None,
        silence_start: None,
        buffer: Seq::empty(),
    }
}

/// One sample scaled by a gain in thousandths, rounding toward zero.
pub open spec fn scale_sample(s: int, gain: int) -> int {
    if s >= 0 {
        (s * gain) / 1000
    } else {
        -(((-s) * gain) / 1000)
    }
}

/// A whole chunk scaled by a gain in thousandths.
pub open spec fn scale_chunk(s: Seq<i32>, gain: int) -> Seq<i32> {
    Seq::new(s.len(), |i: int| scale_sample(s[i] as int, gain) as i32)
}

/// Whether a silence that began at `start` has lasted at least `duration`
/// by time `now`.
pub open spec fn silence_elapsed(start: Option<int>, now: int, duration: int) -> bool {
    match start {
        Some(t) => now >= t && now - t >= duration,
        None => false,
    }
}

/// One step of the segmenter on a single chunk: the new state and the
/// emitted segment, if this chunk closed one.
pub open spec fn seg_step(p: SegParams, m: SegModel, chunk: Seq<i32>, now: int) -> (
    SegModel,
    Option<Seq<i32>>,
) {
    let level = spec_level(chunk);
    let is_speech = spec_classify(
        p.threshold_start,
        p.threshold_stop,
        level,
        m.state is Speaking,
    );
    match m.state {
        SpeechState::Idle => {
            if is_speech {
                (
                    SegModel {
                        state: SpeechState::Speaking,
                        speech_start: Some(now),
                        silence_start: None,
                        buffer: m.buffer + chunk,
                    },
                    None,
                )
            } else {
                (m, None)
            }
        },
        SpeechState::Speaking => {
            if !is_speech {
                (
                    SegModel {
                        state: SpeechState::SilenceDetected,
                        silence_start: Some(now),
                        buffer: m.buffer + chunk,
                        ..m
                    },
                    None,
                )
            } else {
                (SegModel { buffer: m.buffer + chunk, ..m }, None)
            }
        },
        SpeechState::SilenceDetected => {
            if is_speech {
                (
                    SegModel {
                        state: SpeechState::Speaking,
                        speech_start: Some(now),
                        silence_start: None,
                        buffer: m.buffer + chunk,
                    },
                    None,
                )
            } else if silence_elapsed(m.silence_start, now, p.silence_duration) {
                (initial_seg_model(), Some(scale_chunk(m.buffer + chunk, p.gain)))
            } else {
                (SegModel { buffer: m.buffer + chunk, ..m }, None)
            }
        },
    }
}

/// Runs the segmenter over a sequence of (chunk, arrival time) pairs,
/// collecting every emitted segment in order.
pub open spec fn seg_run(p: SegParams, m: SegModel, inputs: Seq<(Seq<i32>, int)>) -> (
    SegModel,
    Seq<Seq<i32>>,
)
    decreases inputs.len(),
{
    if inputs.len() == 0 {
        (m, Seq::empty())
    } else {
        let step = seg_step(p, m, inputs.first().0, inputs.first().1);
        let rest = seg_run(p, step.0, inputs.drop_first());
        (
            rest.0,
            match step.1 {
                Some(s) => seq![s] + rest.1,
                None => rest.1,
            },
        )
    }
}

/// The concatenation of the chunks of a run, in arrival order.
pub open spec fn concat_chunks(inputs: Seq<(Seq<i32>, int)>) -> Seq<i32>
    decreases inputs.len(),
{
    if inputs.len() == 0 {
        Seq::empty()
    } else {
        inputs.first().0 + concat_chunks(inputs.drop_first())
    }
}

/// Every chunk of a run is classified loud enough to start speech.
pub open spec fn all_loud(p: SegParams, inputs: Seq<(Seq<i32>, int)>) -> bool {
    forall|i: int|
        0 <= i < inputs.len() ==> spec_level(#[trigger] inputs[i].0) >= p.threshold_start
}

/// Every chunk of a run is classified silent even against the lower
/// threshold.
pub open spec fn all_silent(p: SegParams, inputs: Seq<(Seq<i32>, int)>) -> bool {
    forall|i: int| 0 <= i < inputs.len() ==> spec_level(#[trigger] inputs[i].0) < p.threshold_stop
}

proof fn lemma_seg_run_append(p: SegParams, m: SegModel, a: Seq<(Seq<i32>, int)>, b: Seq<
    (Seq<i32>, int),
>)
    ensures
        seg_run(p, m, a + b).0 =~= seg_run(p, seg_run(p, m, a).0, b).0,
        seg_run(p, m, a + b).1 =~= seg_run(p, m, a).1 + seg_run(p, seg_run(p, m, a).0, b).1,
    decreases a.len(),
{
    if a.len() == 0 {
        assert(a + b =~= b);
    } else {
        let step = seg_step(p, m, a.first().0, a.first().1);
        lemma_seg_run_append(p, step.0, a.drop_first(), b);
        assert((a + b).first() == a.first());
        assert((a + b).drop_first() =~= a.drop_first() + b);
    }
}

proof fn lemma_concat_chunks_append(a: Seq<(Seq<i32>, int)>, b: Seq<(Seq<i32>, int)>)
    ensures
        concat_chunks(a + b) =~= concat_chunks(a) + concat_chunks(b),
    decreases a.len(),
{
    if a.len() == 0 {
        assert(a + b =~= b);
    } else {
        lemma_concat_chunks_append(a.drop_first(), b);
        assert((a + b).first() == a.first());
        assert((a + b).drop_first() =~= a.drop_first() + b);
    }
}

/// Loud chunks keep an open segment open: from `Speaking`, a run of loud
/// chunks emits nothing, stays in `Speaking`, and only grows the buffer.
proof fn lemma_run_loud_from_speaking(p: SegParams, m: SegModel, inputs: Seq<(Seq<i32>, int)>)
    requires
        p.threshold_stop <= p.threshold_start,
        m.state is Speaking,
        all_loud(p, inputs),
    ensures
        seg_run(p, m, inputs).0 =~= (SegModel { buffer: m.buffer + concat_chunks(inputs), ..m }),
        seg_run(p, m, inputs).1 =~= Seq::<Seq<i32>>::empty(),
    decreases inputs.len(),
{
    if inputs.len() == 0 {
        assert(m.buffer + concat_chunks(inputs) =~= m.buffer);
    } else {
        let step = seg_step(p, m, inputs.first().0, inputs.first().1);
        assert(spec_level(inputs[0].0) >= p.threshold_start);
        assert(forall|i: int|
            0 <= i < inputs.drop_first().len() ==> spec_level(
                #[trigger] inputs.drop_first()[i].0,
            ) >= p.threshold_start) by {
            assert(forall|i: int|
                0 <= i < inputs.drop_first().len() ==> inputs.drop_first()[i] == inputs[i + 1]);
        }
        lemma_run_loud_from_speaking(p, step.0, inputs.drop_first());
        assert(m.buffer + inputs.first().0 + concat_chunks(inputs.drop_first()) =~= m.buffer
            + concat_chunks(inputs));
    }
}

/// Unconfirmed silence holds the segment: from `SilenceDetected`, silent
/// chunks that never reach the silence duration emit nothing and keep the
/// silence timestamp.
proof fn lemma_run_silent_holding(p: SegParams, m: SegModel, inputs: Seq<(Seq<i32>, int)>)
    requires
        p.threshold_stop <= p.threshold_start,
        m.state is SilenceDetected,
        all_silent(p, inputs),
        forall|i: int|
            0 <= i < inputs.len() ==> !silence_elapsed(
                m.silence_start,
                #[trigger] inputs[i].1,
                p.silence_duration,
            ),
    ensures
        seg_run(p, m, inputs).0 =~= (SegModel { buffer: m.buffer + concat_chunks(inputs), ..m }),
        seg_run(p, m, inputs).1 =~= Seq::<Seq<i32>>::empty(),
    decreases inputs.len(),
{
    if inputs.len() == 0 {
        assert(m.buffer + concat_chunks(inputs) =~= m.buffer);
    } else {
        let step = seg_step(p, m, inputs.first().0, inputs.first().1);
        assert(spec_level(inputs[0].0) < p.threshold_stop);
        assert(!silence_elapsed(m.silence_start, inputs[0].1, p.silence_duration));
        assert(forall|i: int|
            0 <= i < inputs.drop_first().len() ==> inputs.drop_first()[i] == inputs[i + 1]);
        lemma_run_silent_holding(p, step.0, inputs.drop_first());
        assert(m.buffer + inputs.first().0 + concat_chunks(inputs.drop_first()) =~= m.buffer
            + concat_chunks(inputs));
    }
}

/// The segmenter round trip: from idle, a burst of loud chunks followed by
/// silent chunks whose last arrival confirms the silence duration emits
/// exactly one segment.  The segment is the gain-scaled concatenation of
/// everything buffered up to the confirming chunk — the loud chunks and the
/// silent tail that confirmed the pause — and the machine returns to idle
/// with an empty buffer.
pub proof fn lemma_segmenter_round_trip(
    p: SegParams,
    louds: Seq<(Seq<i32>, int)>,
    silents: Seq<(Seq<i32>, int)>,
)
    requires
        p.threshold_stop <= p.threshold_start,
        louds.len() >= 1,
        silents.len() >= 2,
        all_loud(p, louds),
        all_silent(p, silents),
        forall|i: int|
            1 <= i < silents.len() - 1 ==> !silence_elapsed(
                Some(silents.first().1),
                #[trigger] silents[i].1,
                p.silence_duration,
            ),
        silence_elapsed(Some(silents.first().1), silents.last().1, p.silence_duration),
    ensures
        ({
            let r = seg_run(p, initial_seg_model(), louds + silents);
            &&& r.1.len() == 1
            &&& r.1[0] =~= scale_chunk(concat_chunks(louds + silents), p.gain)
            &&& r.0 =~= initial_seg_model()
        }),
{
    let m0 = initial_seg_model();
    lemma_seg_run_append(p, m0, louds, silents);
    lemma_concat_chunks_append(louds, silents);

    // The loud burst: the first chunk opens the segment, the rest keep it open.
    let first_step = seg_step(p, m0, louds.first().0, louds.first().1);
    assert(spec_level(louds[0].0) >= p.threshold_start);
    let m1 = first_step.0;
    assert(m1.state is Speaking);
    assert(m1.buffer =~= louds.first().0);
    assert(forall|i: int|
        0 <= i < louds.drop_first().len() ==> louds.drop_first()[i] == louds[i + 1]);
    lemma_run_loud_from_speaking(p, m1, louds.drop_first());
    let m_loud = seg_run(p, m0, louds).0;
    assert(m_loud.state is Speaking);
    assert(m_loud.buffer =~= concat_chunks(louds)) by {
        assert(m1.buffer + concat_chunks(louds.drop_first()) =~= concat_chunks(louds));
    }
    assert(seg_run(p, m0, louds).1 =~= Seq::<Seq<i32>>::empty());

    // The first silent chunk records the silence start.
    let ts0 = silents.first().1;
    let silent_step = seg_step(p, m_loud, silents.first().0, ts0);
    assert(spec_level(silents[0].0) < p.threshold_stop);
    let m2 = silent_step.0;
    assert(m2.state is SilenceDetected);
    assert(m2.silence_start == Some(ts0));
    assert(m2.buffer =~= concat_chunks(louds) + silents.first().0);

    // The middle silent chunks hold the segment; the last one confirms.
    let mid = silents.subrange(1, silents.len() - 1);
    let last = silents.subrange(silents.len() - 1, silents.len() as int);
    assert(silents.drop_first() =~= mid + last);
    assert(forall|i: int| 0 <= i < mid.len() ==> mid[i] == silents[i + 1]);
    lemma_seg_run_append(p, m2, mid, last);
    lemma_run_silent_holding(p, m2, mid);
    let m3 = seg_run(p, m2, mid).0;
    assert(m3.state is SilenceDetected);
    assert(m3.silence_start == Some(ts0));
    assert(m3.buffer =~= m2.buffer + concat_chunks(mid));

    // The final silent chunk: silence has persisted, the segment is emitted.
    let lc = last[0];
    assert(lc == silents.last());
    assert(spec_level(lc.0) < p.threshold_stop);
    let final_step = seg_step(p, m3, lc.0, lc.1);
    assert(silence_elapsed(m3.silence_start, lc.1, p.silence_duration));
    assert(final_step.0 =~= initial_seg_model());
    assert(final_step.1 == Some(scale_chunk(m3.buffer + lc.0, p.gain)));
    assert(seg_run(p, m3, last).1 =~= seq![scale_chunk(m3.buffer + lc.0, p.gain)]) by {
        assert(last.first() == lc);
        assert(last.drop_first() =~= Seq::<(Seq<i32>, int)>::empty());
        assert(seg_run(p, final_step.0, last.drop_first()).1 =~= Seq::<Seq<i32>>::empty());
    }
    assert(seg_run(p, m3, last).0 =~= initial_seg_model()) by {
        assert(last.first() == lc);
        assert(last.drop_first() =~= Seq::<(Seq<i32>, int)>::empty());
        assert(seg_run(p, final_step.0, last.drop_first()).0 == final_step.0);
    }

    // Assemble the buffer identity: everything fed in, in order.
    assert(m3.buffer + lc.0 =~= concat_chunks(louds + silents)) by {
        lemma_concat_chunks_append(mid, last);
        assert(concat_chunks(last) =~= lc.0) by {
            assert(last.first() == lc);
            assert(last.drop_first() =~= Seq::<(Seq<i32>, int)>::empty());
            assert(lc.0 + concat_chunks(last.drop_first()) =~= lc.0);
        }
        assert(concat_chunks(silents) =~= silents.first().0 + concat_chunks(mid) + lc.0) by {
            assert(concat_chunks(silents) =~= silents.first().0 + concat_chunks(
                silents.drop_first(),
            ));
            assert(concat_chunks(silents.drop_first()) =~= concat_chunks(mid + last));
        }
    }
}

/// The false-alarm property: a loud chunk, one silent chunk whose gap stays
/// below the silence duration, then a loud chunk again emit nothing; the
/// segmenter is back in `Speaking` and the buffer holds all three chunks.
pub proof fn lemma_false_alarm_keeps_segment(
    p: SegParams,
    c1: Seq<i32>,
    t1: int,
    c2: Seq<i32>,
    t2: int,
    c3: Seq<i32>,
    t3: int,
)
    requires
        p.threshold_stop <= p.threshold_start,
        spec_level(c1) >= p.threshold_start,
        spec_level(c2) < p.threshold_stop,
        spec_level(c3) >= p.threshold_start,
        !silence_elapsed(Some(t2), t3, p.silence_duration),
    ensures
        ({
            let r = seg_run(p, initial_seg_model(), seq![(c1, t1), (c2, t2), (c3, t3)]);
            &&& r.1 =~= Seq::<Seq<i32>>::empty()
            &&& r.0.state is Speaking
            &&& r.0.buffer =~= c1 + c2 + c3
            &&& r.0.silence_start is None
        }),
{
    let inputs = seq![(c1, t1), (c2, t2), (c3, t3)];
    let m0 = initial_seg_model();
    let s1 = seg_step(p, m0, c1, t1);
    assert(inputs.first() == (c1, t1));
    assert(s1.0.state is Speaking);
    assert(s1.0.buffer =~= c1);
    let rest1 = inputs.drop_first();
    assert(rest1 =~= seq![(c2, t2), (c3, t3)]);
    assert(rest1.first() == (c2, t2));
    let s2 = seg_step(p, s1.0, c2, t2);
    assert(s2.0.state is SilenceDetected);
    assert(s2.0.buffer =~= c1 + c2);
    let rest2 = rest1.drop_first();
    assert(rest2 =~= seq![(c3, t3)]);
    assert(rest2.first() == (c3, t3));
    let s3 = seg_step(p, s2.0, c3, t3);
    assert(s3.0.state is Speaking);
    assert(s3.0.buffer =~= c1 + c2 + c3);
    let rest3 = rest2.drop_first();
    assert(rest3 =~= Seq::<(Seq<i32>, int)>::empty());
    assert(seg_run(p, s3.0, rest3).1 =~= Seq::<Seq<i32>>::empty());
    assert(seg_run(p, s2.0, rest2).0 == s3.0);
    assert(seg_run(p, s2.0, rest2).1 =~= Seq::<Seq<i32>>::empty());
    assert(seg_run(p, s1.0, rest1).0 == s3.0);
    assert(seg_run(p, s1.0, rest1).1 =~= Seq::<Seq<i32>>::empty());
    assert(seg_run(p, m0, inputs).0 == s3.0);
    assert(seg_run(p, m0, inputs).1 =~= Seq::<Seq<i32>>::empty());
}

/// Accumulates speech chunks into segments, closing a segment only after
/// silence has persisted for the configured duration.
pub struct SpeechDetector {
    pub state: SpeechState,
    pub vad: VoiceActivityDetector,
    pub speech_start_ms: Option<u64>,
    pub silence_start_ms: Option<u64>,
    pub speech_buffer: Vec<i32>,
    pub silence_duration_ms: u32,
    pub gain_milli: u32,
}

impl View for SpeechDetector {
    type V = SegModel;

    open spec fn view(&self) -> SegModel {
        SegModel {
            state: self.state,
            speech_start: match self.speech_start_ms {
                Some(t) => Some(t as int),
                None => None,
            },
            silence_start: match self.silence_start_ms {
                Some(t) => Some(t as int),
                None => None,
            },
            buffer: self.speech_buffer@,
        }
    }
}

impl SpeechDetector {
    pub open spec fn params(&self) -> SegParams {
        SegParams {
            threshold_start: self.vad.threshold_start as int,
            threshold_stop: self.vad.threshold_stop as int,
            silence_duration: self.silence_duration_ms as int,
            gain: self.gain_milli as int,
        }
    }

    pub open spec fn wf(&self) -> bool {
        &&& self.gain_milli <= 1_000_000
        &&& all_samples_in_range(self.speech_buffer@)
    }

    /// A fresh segmenter: idle, empty buffer, no timestamps recorded.
    /// Gain is in thousandths (1000 is unity) and is capped so that
    /// amplification can never overflow a sample.
    pub fn new(
        threshold_start: u32,
        threshold_stop: u32,
        silence_duration_ms: u32,
        gain_milli: u32,
    ) -> (r: Self)
        requires
            gain_milli <= 1_000_000,
        ensures
            r.wf(),
            r@ =~= initial_seg_model(),
            r.params() == (SegParams {
                threshold_start: threshold_start as int,
                threshold_stop: threshold_stop as int,
                silence_duration: silence_duration_ms as int,
                gain: gain_milli as int,
            }),
    {
        let vad = VoiceActivityDetector::new(threshold_start, threshold_stop);
        SpeechDetector {
            state: SpeechState::Idle,
            vad,
            speech_start_ms: None,
            silence_start_ms: None,
            speech_buffer: Vec::new(),
            silence_duration_ms,
            gain_milli,
        }
    }

    /// Feeds one chunk, arriving at `now_ms`, through the state machine;
    /// returns the finished, gain-adjusted segment when this chunk closes one.
    pub fn process_audio(&mut self, samples: &[i32], now_ms: u64) -> (r: Option<Vec<i32>>)
        requires
            old(self).wf(),
            all_samples_in_range(samples@),
        ensures
            final(self).wf(),
            final(self).params() == old(self).params(),
            final(self)@ =~= seg_step(old(self).params(), old(self)@, samples@, now_ms as int).0,
            match (r, seg_step(old(self).params(), old(self)@, samples@, now_ms as int).1) {
                (Some(v), Some(s)) => v@ =~= s,
                (None, None) => true,
                _ => false,
            },
    {
        let audio_level = self.vad.calculate_audio_level(samples);
        let is_speaking = self.state == SpeechState::Speaking;
        let vad_result = self.vad.detect(audio_level, is_speaking);

        match self.state {
            SpeechState::Idle => {
                if vad_result.is_speech {
                    self.state = SpeechState::Speaking;
                    self.speech_start_ms = Some(now_ms);
                    self.silence_start_ms = None;
                    extend_buffer(&mut self.speech_buffer, samples);
                }
                None
            },
            SpeechState::Speaking => {
                extend_buffer(&mut self.speech_buffer, samples);
                if !vad_result.is_speech {
                    self.state = SpeechState::SilenceDetected;
                    self.silence_start_ms = Some(now_ms);
                }
                None
            },
            SpeechState::SilenceDetected => {
                extend_buffer(&mut self.speech_buffer, samples);
                if vad_result.is_speech {
                    self.state = SpeechState::Speaking;
                    self.speech_start_ms = Some(now_ms);
                    self.silence_start_ms = None;
                    None
                } else if self.silence_duration_exceeded(now_ms) {
                    let amplified = amplify(&self.speech_buffer, self.gain_milli);
                    self.speech_buffer = Vec::new();
                    self.state = SpeechState::Idle;
                    self.speech_start_ms = None;
                    self.silence_start_ms = None;
                    Some(amplified)
                } else {
                    None
                }
            },
        }
    }

    /// Whether the silence that began at the recorded timestamp has lasted
    /// at least the configured duration by `now_ms`.
    pub fn silence_duration_exceeded(&self, now_ms: u64) -> (r: bool)
        ensures
            r == silence_elapsed(self@.silence_start, now_ms as int, self.silence_duration_ms as int),
    {
        match self.silence_start_ms {
            Some(t) => now_ms >= t && now_ms - t >= self.silence_duration_ms as u64,
            None => false,
        }
    }

    /// The duration in milliseconds of a buffer of samples at 16 kHz.
    pub fn calculate_duration_ms(&self, samples: &[i32]) -> (r: u32)
        requires
            samples@.len() <= 4_000_000,
        ensures
            r as int == (samples@.len() * 1000) / 16000,
    {
        let sample_count = samples.len() as u64;
        ((sample_count * 1000) / 16000) as u32
    }
}

/// Appends every sample of a chunk to the buffer.
fn extend_buffer(buf: &mut Vec<i32>, samples: &[i32])
    ensures
        final(buf)@ =~= old(buf)@ + samples@,
{
    let n = samples.len();
    let mut i: usize = 0;
    while i < n
        invariant
            i <= n,
            n == samples@.len(),
            buf@ =~= old(buf)@ + samples@.subrange(0, i as int),
        decreases n - i,
    {
        buf.push(samples[i]);
        proof {
            assert(old(buf)@ + samples@.subrange(0, i as int + 1) =~= (old(buf)@ + samples@.subrange(
                0,
                i as int,
            )).push(samples@[i as int]));
        }
        i = i + 1;
    }
    proof {
        assert(samples@.subrange(0, n as int) =~= samples@);
    }
}

/// Scales every sample by the gain (in thousandths), rounding toward zero.
fn amplify(samples: &Vec<i32>, gain_milli: u32) -> (r: Vec<i32>)
    requires
        all_samples_in_range(samples@),
        gain_milli <= 1_000_000,
    ensures
        r@ =~= scale_chunk(samples@, gain_milli as int),
{
    let n = samples.len();
    let mut r: Vec<i32> = Vec::new();
    let mut i: usize = 0;
    while i < n
        invariant
            i <= n,
            n == samples@.len(),
            all_samples_in_range(samples@),
            gain_milli <= 1_000_000,
            r@ =~= scale_chunk(samples@.subrange(0, i as int), gain_milli as int),
        decreases n - i,
    {
        let s = samples[i];
        proof {
            assert(crate::vad::sample_in_range(samples@[i as int]));
            lemma_scale_sample_bounds(s as int, gain_milli as int);
        }
        let scaled: i64 = if s >= 0 {
            (s as i64 * gain_milli as i64) / 1000
        } else {
            -((-(s as i64) * gain_milli as i64) / 1000)
        };
        r.push(scaled as i32);
        proof {
            assert(scale_chunk(samples@.subrange(0, i as int + 1), gain_milli as int)
                =~= scale_chunk(samples@.subrange(0, i as int), gain_milli as int).push(
                scale_sample(samples@[i as int] as int, gain_milli as int) as i32,
            ));
        }
        i = i + 1;
    }
    proof {
        assert(samples@.subrange(0, n as int) =~= samples@);
    }
    r
}

/// A sample within range, scaled by a gain of at most a thousandfold,
/// stays within a billion in magnitude.
proof fn lemma_scale_sample_bounds(s: int, gain: int)
    requires
        -1_000_000 <= s <= 1_000_000,
        0 <= gain <= 1_000_000,
    ensures
        -1_000_000_000 <= scale_sample(s, gain) <= 1_000_000_000,
        s >= 0 ==> 0 <= s * gain <= 1_000_000_000_000,
        s < 0 ==> 0 <= (-s) * gain <= 1_000_000_000_000,
{
    if s >= 0 {
        assert(0 <= s * gain <= 1_000_000_000_000) by (nonlinear_arith)
            requires
                0 <= s <= 1_000_000,
                0 <= gain <= 1_000_000,
        ;
        lemma_div_is_ordered(s * gain, 1_000_000_000_000, 1000);
        lemma_div_is_ordered(0, s * gain, 1000);
    } else {
        assert(0 <= (-s) * gain <= 1_000_000_000_000) by (nonlinear_arith)
            requires
                0 < -s <= 1_000_000,
                0 <= gain <= 1_000_000,
        ;
        lemma_div_is_ordered((-s) * gain, 1_000_000_000_000, 1000);
        lemma_div_is_ordered(0, (-s) * gain, 1000);
    }
}

} // verus!
