//! Models of the two recognition dispatch paths.
//!
//! The numerical inference is an outside collaborator that the surrounding
//! process drives; these types hold everything around it that can be
//! decided from plain values: construction parameters, the guard that a
//! model must be loaded, audio padding, sampling-strategy and backend
//! selection, the streaming window bookkeeping, and the suppression of
//! duplicate partial transcriptions.
//!
//! Audio samples are fixed-point values in thousandths of full scale,
//! as in the rest of the crate.

use crate::chars::{chars_to_string, str_eq, str_to_chars};
use crate::textproc::{spec_trim, trim_chars};
use vstd::prelude::*;
use vstd::string::{StrSliceExecFns, StringExecFns};

verus! {

/// Why an engine operation was refused.
#[derive(Debug, Clone, PartialEq)]
pub enum EngineError {
    ModelNotLoaded,
}

impl EngineError {
    pub open spec fn spec_message(&self) -> Seq<char> {
        "Model not loaded"@
    }

    pub fn message(&self) -> (r: String)
        ensures
            r@ == self.spec_message(),
    {
        String::from_str("Model not loaded")
    }
}

/// How the recognizer samples its decoding candidates.
#[derive(Debug, Clone, Copy, PartialEq, Eq, Structural)]
pub enum SamplingKind {
    Greedy,
    BeamSearch,
}

/// The character code with ASCII uppercase folded to lowercase.
pub open spec fn lower_code(c: char) -> int {
    if 'A' <= c && c <= 'Z' {
        c as int + 32
    } else {
        c as int
    }
}

/// Character-wise ASCII-case-insensitive equality.
pub open spec fn seq_eq_ci(a: Seq<char>, b: Seq<char>) -> bool {
    &&& a.len() == b.len()
    &&& forall|i: int| 0 <= i < a.len() ==> lower_code(a[i]) == lower_code(#[trigger] b[i])
}

/// Compares two strings ignoring ASCII case.
pub fn str_eq_ci(a: &str, b: &str) -> (r: bool)
    ensures
        r == seq_eq_ci(a@, b@),
{
    let na = a.unicode_len();
    let nb = b.unicode_len();
    if na != nb {
        return false;
    }
    let mut i: usize = 0;
    while i < na
        invariant
            i <= na,
            na == a@.len(),
            na == b@.len(),
            forall|j: int| 0 <= j < i ==> lower_code(a@[j]) == lower_code(#[trigger] b@[j]),
        decreases na - i,
    {
        let ca = a.get_char(i);
        let cb = b.get_char(i);
        let la: u32 = if ca >= 'A' && ca <= 'Z' {
            ca as u32 + 32
        } else {
            ca as u32
        };
        let lb: u32 = if cb >= 'A' && cb <= 'Z' {
            cb as u32 + 32
        } else {
            cb as u32
        };
        if la != lb {
            return false;
        }
        i = i + 1;
    }
    true
}

/// The audio padded with silence up to a minimum sample count.
pub open spec fn spec_pad(s: Seq<i32>, min: int) -> Seq<i32> {
    if s.len() >= min {
        s
    } else {
        s + Seq::new((min - s.len()) as nat, |i: int| 0i32)
    }
}

/// The batch recognition engine: its construction parameters and the state
/// the daemon tracks about it.  The loaded model itself lives with the
/// surrounding process.
pub struct WhisperEngine {
    pub model_url: String,
    pub backend: String,
    pub model_checksum: Option<String>,
    pub min_audio_samples: usize,
    pub sampling_strategy: String,
    pub model_loaded: bool,
}

impl WhisperEngine {
    pub fn new(model_url: String, backend: String) -> (r: Self)
        ensures
            r.model_url@ == model_url@,
            r.backend@ == backend@,
            r.model_checksum is None,
            r.min_audio_samples == 18000,
            r.sampling_strategy@ == "greedy"@,
            !r.model_loaded,
    {
        Self::new_with_checksum_and_params(
            model_url,
            backend,
            None,
            18000,
            String::from_str("greedy"),
        )
    }

    pub fn new_with_checksum(model_url: String, backend: String, model_checksum: Option<String>)
        -> (r: Self)
        ensures
            r.model_url@ == model_url@,
            r.backend@ == backend@,
            r.model_checksum == model_checksum,
            r.min_audio_samples == 18000,
            r.sampling_strategy@ == "greedy"@,
            !r.model_loaded,
    {
        Self::new_with_checksum_and_params(
            model_url,
            backend,
            model_checksum,
            18000,
            String::from_str("greedy"),
        )
    }

    pub fn new_with_checksum_and_params(
        model_url: String,
        backend: String,
        model_checksum: Option<String>,
        min_audio_samples: usize,
        sampling_strategy: String,
    ) -> (r: Self)
        ensures
            r.model_url@ == model_url@,
            r.backend@ == backend@,
            r.model_checksum == model_checksum,
            r.min_audio_samples == min_audio_samples,
            r.sampling_strategy@ == sampling_strategy@,
            !r.model_loaded,
    {
        WhisperEngine {
            model_url,
            backend,
            model_checksum,
            min_audio_samples,
            sampling_strategy,
            model_loaded: false,
        }
    }

    /// Records that the surrounding process loaded the model into memory.
    pub fn mark_model_loaded(&mut self)
        ensures
            *final(self) == (WhisperEngine { model_loaded: true, ..*old(self) }),
    {
        self.model_loaded = true;
    }

    /// Pads the audio with silence up to `min_samples` samples; longer audio
    /// passes through unchanged.
    pub fn pad_audio(&self, audio: &Vec<i32>, min_samples: usize) -> (r: Vec<i32>)
        ensures
            r@ =~= spec_pad(audio@, min_samples as int),
    {
        let mut r = copy_samples(audio);
        while r.len() < min_samples
            invariant
                audio@.len() >= min_samples ==> r@ == audio@,
                audio@.len() < min_samples ==> r@.len() <= min_samples,
                r@.len() >= audio@.len(),
                r@.subrange(0, audio@.len() as int) =~= audio@,
                forall|j: int| audio@.len() <= j < r@.len() ==> r@[j] == 0i32,
            decreases min_samples as int - r@.len(),
        {
            r.push(0);
            proof {
                assert(r@.subrange(0, audio@.len() as int) =~= r@.drop_last().subrange(
                    0,
                    audio@.len() as int,
                ));
            }
        }
        proof {
            if audio@.len() < min_samples {
                assert(r@.len() == min_samples);
                assert forall|j: int| 0 <= j < audio@.len() implies r@[j] == audio@[j] by {
                    assert(r@.subrange(0, audio@.len() as int)[j] == r@[j]);
                }
            }
            assert(r@ =~= spec_pad(audio@, min_samples as int));
        }
        r
    }

    /// The sampling strategy named in configuration; anything unrecognized
    /// falls back to greedy.
    pub fn parse_sampling_strategy(&self) -> (r: SamplingKind)
        ensures
            r == (if seq_eq_ci(self.sampling_strategy@, "beam"@) {
                SamplingKind::BeamSearch
            } else {
                SamplingKind::Greedy
            }),
    {
        if str_eq_ci(self.sampling_strategy.as_str(), "beam") {
            SamplingKind::BeamSearch
        } else {
            SamplingKind::Greedy
        }
    }

    /// Whether configuration asks for the GPU backend; anything else runs on
    /// the CPU.
    pub fn wants_gpu(&self) -> (r: bool)
        ensures
            r == (seq_eq_ci(self.backend@, "gpu"@) || seq_eq_ci(self.backend@, "cuda"@)),
    {
        str_eq_ci(self.backend.as_str(), "gpu") || str_eq_ci(self.backend.as_str(), "cuda")
    }

    /// The guard and padding before a transcription call: refused until the
    /// model is loaded, otherwise the audio padded to the configured minimum.
    pub fn prepare_transcription(&self, audio: &Vec<i32>) -> (r: Result<Vec<i32>, EngineError>)
        ensures
            !self.model_loaded ==> r == Err::<Vec<i32>, EngineError>(EngineError::ModelNotLoaded),
            self.model_loaded ==> match r {
                Ok(padded) => padded@ =~= spec_pad(audio@, self.min_audio_samples as int),
                Err(_) => false,
            },
    {
        if !self.model_loaded {
            return Err(EngineError::ModelNotLoaded);
        }
        Ok(self.pad_audio(audio, self.min_audio_samples))
    }
}

/// The streaming recognition engine's bookkeeping: a rolling sample window,
/// re-transcribed whole whenever it fills, with a configured tail kept for
/// context and duplicate partial results suppressed.
pub struct StreamingEngine {
    pub buffer: Vec<i32>,
    pub model_loaded: bool,
    pub length_samples: u64,
    pub keep_samples: u64,
    pub last_text: String,
    pub is_running: bool,
    pub language: String,
}

impl StreamingEngine {
    /// Window geometry from durations and the sample rate; the engine starts
    /// stopped, with nothing buffered.
    pub fn new(
        language: String,
        step_ms: u32,
        length_ms: u32,
        keep_ms: u32,
        sample_rate: u32,
    ) -> (r: Self)
        ensures
            r.buffer@.len() == 0,
            !r.model_loaded,
            r.length_samples == (length_ms as int * sample_rate as int) / 1000,
            r.keep_samples == (keep_ms as int * sample_rate as int) / 1000,
            r.last_text@.len() == 0,
            !r.is_running,
            r.language@ == language@,
    {
        proof {
            assert(length_ms as int * sample_rate as int <= 0xFFFF_FFFF * 0xFFFF_FFFF
                && keep_ms as int * sample_rate as int <= 0xFFFF_FFFF * 0xFFFF_FFFF
                && length_ms as int * sample_rate as int >= 0 && keep_ms as int
                * sample_rate as int >= 0) by (nonlinear_arith)
                requires
                    0 <= length_ms as int <= 0xFFFF_FFFF,
                    0 <= keep_ms as int <= 0xFFFF_FFFF,
                    0 <= sample_rate as int <= 0xFFFF_FFFF,
            ;
        }
        let length_samples = (length_ms as u64 * sample_rate as u64) / 1000;
        let keep_samples = (keep_ms as u64 * sample_rate as u64) / 1000;
        StreamingEngine {
            buffer: Vec::new(),
            model_loaded: false,
            length_samples,
            keep_samples,
            last_text: String::new(),
            is_running: false,
            language,
        }
    }

    /// Records that the surrounding process loaded the model.
    pub fn mark_model_loaded(&mut self)
        ensures
            *final(self) == (StreamingEngine { model_loaded: true, ..*old(self) }),
    {
        self.model_loaded = true;
    }

    /// Starts streaming: refused until the model is loaded; otherwise the
    /// window and the duplicate-suppression state are cleared.
    pub fn start(&mut self) -> (r: Result<(), EngineError>)
        ensures
            !old(self).model_loaded ==> r == Err::<(), EngineError>(EngineError::ModelNotLoaded)
                && *final(self) == *old(self),
            old(self).model_loaded ==> r is Ok && final(self).buffer@.len() == 0 && final(self).last_text@.len() == 0 && final(self).is_running && final(self).model_loaded && final(self).length_samples == old(self).length_samples && final(self).keep_samples == old(self).keep_samples && final(self).language == old(self).language,
    {
        if !self.model_loaded {
            return Err(EngineError::ModelNotLoaded);
        }
        self.buffer = Vec::new();
        self.last_text = String::new();
        self.is_running = true;
        Ok(())
    }

    /// Appends a chunk to the rolling window.  While stopped or unloaded the
    /// chunk is ignored.  When the window reaches its configured length the
    /// whole window comes back for transcription and only the configured
    /// tail of samples stays buffered for context.
    pub fn send_audio(&mut self, chunk: &Vec<i32>) -> (r: Option<Vec<i32>>)
        ensures
            final(self).model_loaded == old(self).model_loaded,
            final(self).is_running == old(self).is_running,
            final(self).length_samples == old(self).length_samples,
            final(self).keep_samples == old(self).keep_samples,
            final(self).language == old(self).language,
            final(self).last_text == old(self).last_text,
            !(old(self).is_running && old(self).model_loaded) ==> r is None && final(self).buffer
                == old(self).buffer,
            (old(self).is_running && old(self).model_loaded) ==> {
                let grown = old(self).buffer@ + chunk@;
                if grown.len() < old(self).length_samples {
                    r is None && final(self).buffer@ =~= grown
                } else {
                    {
                        let cut = if old(self).keep_samples <= old(self).length_samples {
                            old(self).length_samples - old(self).keep_samples
                        } else {
                            0
                        };
                        &&& match r {
                            Some(w) => w@ =~= grown,
                            None => false,
                        }
                        &&& final(self).buffer@ =~= grown.skip(cut as int)
                    }
                }
            },
    {
        if !self.is_running || !self.model_loaded {
            return None;
        }
        extend_samples(&mut self.buffer, chunk);
        if (self.buffer.len() as u64) < self.length_samples {
            return None;
        }
        let window = copy_samples(&self.buffer);
        let cut: u64 = if self.keep_samples <= self.length_samples {
            self.length_samples - self.keep_samples
        } else {
            0
        };
        self.buffer = suffix_samples(&self.buffer, cut as usize);
        Some(window)
    }

    /// Filters one transcribed window: trimmed, and emitted only when
    /// non-empty and different from the last emitted text.
    pub fn accept_transcription(&mut self, text: &str) -> (r: Option<String>)
        ensures
            final(self).buffer == old(self).buffer,
            final(self).model_loaded == old(self).model_loaded,
            final(self).is_running == old(self).is_running,
            final(self).length_samples == old(self).length_samples,
            final(self).keep_samples == old(self).keep_samples,
            final(self).language == old(self).language,
            ({
                let trimmed = spec_trim(text@);
                if trimmed.len() > 0 && trimmed != old(self).last_text@ {
                    match r {
                        Some(t) => t@ == trimmed && final(self).last_text@ == trimmed,
                        None => false,
                    }
                } else {
                    r is None && final(self).last_text == old(self).last_text
                }
            }),
    {
        let chars = str_to_chars(text);
        let trimmed_chars = trim_chars(&chars);
        let trimmed = chars_to_string(&trimmed_chars);
        if trimmed_chars.len() > 0 && !trimmed.eq(&self.last_text) {
            self.last_text = trimmed.clone();
            Some(trimmed)
        } else {
            None
        }
    }

    /// Stops streaming and clears the window and the duplicate-suppression
    /// state.
    pub fn stop(&mut self)
        ensures
            final(self).buffer@.len() == 0,
            final(self).last_text@.len() == 0,
            !final(self).is_running,
            final(self).model_loaded == old(self).model_loaded,
            final(self).length_samples == old(self).length_samples,
            final(self).keep_samples == old(self).keep_samples,
            final(self).language == old(self).language,
    {
        self.is_running = false;
        self.buffer = Vec::new();
        self.last_text = String::new();
    }

    /// Changes the language used for subsequent windows; no restart needed.
    pub fn set_language(&mut self, language: String)
        ensures
            *final(self) == (StreamingEngine { language, ..*old(self) }),
    {
        self.language = language;
    }
}

/// A sliding-window wrapper over the batch engine, for low-latency partial
/// transcriptions: a three-second window with half a second of overlap.
pub struct StreamingWrapper {
    pub buffer: Vec<i32>,
    pub window_samples: u64,
    pub overlap_samples: u64,
    pub accumulated_text: String,
    pub is_active: bool,
}

impl StreamingWrapper {
    pub fn new(sample_rate: u32) -> (r: Self)
        ensures
            r.buffer@.len() == 0,
            r.window_samples == (3000 * sample_rate as int) / 1000,
            r.overlap_samples == (500 * sample_rate as int) / 1000,
            r.accumulated_text@.len() == 0,
            !r.is_active,
    {
        let window_samples = (3000u64 * sample_rate as u64) / 1000;
        let overlap_samples = (500u64 * sample_rate as u64) / 1000;
        StreamingWrapper {
            buffer: Vec::new(),
            window_samples,
            overlap_samples,
            accumulated_text: String::new(),
            is_active: false,
        }
    }

    /// Begins a streaming session with a clean window.
    pub fn activate(&mut self)
        ensures
            final(self).buffer@.len() == 0,
            final(self).accumulated_text@.len() == 0,
            final(self).is_active,
            final(self).window_samples == old(self).window_samples,
            final(self).overlap_samples == old(self).overlap_samples,
    {
        self.buffer = Vec::new();
        self.accumulated_text = String::new();
        self.is_active = true;
    }

    /// Ends the session and discards the window; the accumulated text stays
    /// for duplicate suppression across `finalize`.
    pub fn deactivate(&mut self)
        ensures
            final(self).buffer@.len() == 0,
            !final(self).is_active,
            final(self).accumulated_text == old(self).accumulated_text,
            final(self).window_samples == old(self).window_samples,
            final(self).overlap_samples == old(self).overlap_samples,
    {
        self.is_active = false;
        self.buffer = Vec::new();
    }

    pub fn is_active(&self) -> (r: bool)
        ensures
            r == self.is_active,
    {
        self.is_active
    }

    /// Appends a chunk; inactive sessions ignore it.  A full window comes
    /// back for transcription, keeping the overlap tail buffered.
    pub fn process_chunk(&mut self, chunk: &Vec<i32>) -> (r: Option<Vec<i32>>)
        ensures
            final(self).is_active == old(self).is_active,
            final(self).window_samples == old(self).window_samples,
            final(self).overlap_samples == old(self).overlap_samples,
            final(self).accumulated_text == old(self).accumulated_text,
            !old(self).is_active ==> r is None && final(self).buffer == old(self).buffer,
            old(self).is_active ==> {
                let grown = old(self).buffer@ + chunk@;
                if grown.len() < old(self).window_samples {
                    r is None && final(self).buffer@ =~= grown
                } else {
                    {
                        let cut = if old(self).overlap_samples <= old(self).window_samples {
                            old(self).window_samples - old(self).overlap_samples
                        } else {
                            0
                        };
                        &&& match r {
                            Some(w) => w@ =~= grown,
                            None => false,
                        }
                        &&& final(self).buffer@ =~= grown.skip(cut as int)
                    }
                }
            },
    {
        if !self.is_active {
            return None;
        }
        extend_samples(&mut self.buffer, chunk);
        if (self.buffer.len() as u64) < self.window_samples {
            return None;
        }
        let window = copy_samples(&self.buffer);
        let cut: u64 = if self.overlap_samples <= self.window_samples {
            self.window_samples - self.overlap_samples
        } else {
            0
        };
        self.buffer = suffix_samples(&self.buffer, cut as usize);
        Some(window)
    }

    /// Filters one transcribed window: emitted only when non-empty and
    /// different from what was last emitted.
    pub fn accept_window_text(&mut self, text: &str) -> (r: Option<String>)
        ensures
            final(self).buffer == old(self).buffer,
            final(self).is_active == old(self).is_active,
            final(self).window_samples == old(self).window_samples,
            final(self).overlap_samples == old(self).overlap_samples,
            ({
                let trimmed = spec_trim(text@);
                if trimmed.len() > 0 && trimmed != old(self).accumulated_text@ {
                    match r {
                        Some(t) => t@ == trimmed && final(self).accumulated_text@ == trimmed,
                        None => false,
                    }
                } else {
                    r is None && final(self).accumulated_text == old(self).accumulated_text
                }
            }),
    {
        let chars = str_to_chars(text);
        let trimmed_chars = trim_chars(&chars);
        let trimmed = chars_to_string(&trimmed_chars);
        if trimmed_chars.len() > 0 && !trimmed.eq(&self.accumulated_text) {
            self.accumulated_text = trimmed.clone();
            Some(trimmed)
        } else {
            None
        }
    }

    /// Hands out whatever is left in the window so one last transcription
    /// can run before deactivation; `None` when inactive or empty.
    pub fn take_final_window(&mut self) -> (r: Option<Vec<i32>>)
        ensures
            final(self).is_active == old(self).is_active,
            final(self).buffer == old(self).buffer,
            final(self).window_samples == old(self).window_samples,
            final(self).overlap_samples == old(self).overlap_samples,
            final(self).accumulated_text == old(self).accumulated_text,
            match r {
                Some(w) => old(self).is_active && old(self).buffer@.len() > 0 && w@ =~= old(self).buffer@,
                None => !old(self).is_active || old(self).buffer@.len() == 0,
            },
    {
        if !self.is_active {
            return None;
        }
        if self.buffer.len() == 0 {
            return None;
        }
        Some(copy_samples(&self.buffer))
    }

    /// Completes a finalize: filters the last transcription like any other
    /// window's and deactivates.
    pub fn finish(&mut self, text: Option<&str>) -> (r: Option<String>)
        ensures
            final(self).buffer@.len() == 0,
            !final(self).is_active,
            final(self).window_samples == old(self).window_samples,
            final(self).overlap_samples == old(self).overlap_samples,
            final(self).accumulated_text == old(self).accumulated_text,
            match (text, r) {
                (Some(t), Some(out)) => out@ == t@ && t@.len() > 0 && t@ != old(self).accumulated_text@,
                (Some(t), None) => t@.len() == 0 || t@ == old(self).accumulated_text@,
                (None, None) => true,
                (None, Some(_)) => false,
            },
    {
        let result: Option<String> = match text {
            Some(t) => {
                if t.unicode_len() > 0 && !str_eq(t, self.accumulated_text.as_str()) {
                    Some(t.to_owned())
                } else {
                    None
                }
            },
            None => None,
        };
        self.deactivate();
        result
    }
}

/// Appends every sample of `chunk` to `buf`.
fn extend_samples(buf: &mut Vec<i32>, chunk: &Vec<i32>)
    ensures
        final(buf)@ =~= old(buf)@ + chunk@,
{
    let m = chunk.len();
    let mut j: usize = 0;
    while j < m
        invariant
            j <= m,
            m == chunk@.len(),
            buf@ =~= old(buf)@ + chunk@.subrange(0, j as int),
        decreases m - j,
    {
        buf.push(chunk[j]);
        proof {
            assert(old(buf)@ + chunk@.subrange(0, j as int + 1) =~= (old(buf)@ + chunk@.subrange(
                0,
                j as int,
            )).push(chunk@[j as int]));
        }
        j = j + 1;
    }
    proof {
        assert(chunk@.subrange(0, m as int) =~= chunk@);
    }
}

/// A copy of a sample vector.
fn copy_samples(v: &Vec<i32>) -> (r: Vec<i32>)
    ensures
        r@ =~= v@,
{
    let n = v.len();
    let mut r: Vec<i32> = Vec::new();
    let mut i: usize = 0;
    while i < n
        invariant
            i <= n,
            n == v@.len(),
            r@ =~= v@.subrange(0, i as int),
        decreases n - i,
    {
        r.push(v[i]);
        i = i + 1;
    }
    proof {
        assert(v@.subrange(0, n as int) =~= v@);
    }
    r
}

/// The samples from `start` on, as a fresh vector.
fn suffix_samples(v: &Vec<i32>, start: usize) -> (r: Vec<i32>)
    requires
        start <= v@.len(),
    ensures
        r@ =~= v@.skip(start as int),
{
    let n = v.len();
    let mut r: Vec<i32> = Vec::new();
    let mut i: usize = start;
    while i < n
        invariant
            start <= i <= n,
            n == v@.len(),
            r@ =~= v@.subrange(start as int, i as int),
        decreases n - i,
    {
        r.push(v[i]);
        proof {
            assert(v@.subrange(start as int, i as int + 1) =~= v@.subrange(
                start as int,
                i as int,
            ).push(v@[i as int]));
        }
        i = i + 1;
    }
    proof {
        assert(v@.subrange(start as int, n as int) =~= v@.skip(start as int));
    }
    r
}

} // verus!
