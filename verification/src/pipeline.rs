//! Segmentation of captured audio into utterances.
//!
//! Chunks are fed to the voice activity detector; the chunks from a
//! detected speech start through the detected speech end are collected and
//! handed out together as one utterance.
use vstd::prelude::*;

use crate::audio::AudioChunk;
use crate::vad::{can_step, cleared, configured_vad, is_speaking, settings_valid, rms, sum_sq, vad_run, vad_step, VadEngine, VadState, VadView};

verus! {

/// The state of a pipeline.
pub struct PipelineView {
    /// The detector.
    pub vad: VadView,
    /// Chunks collected in the current speech segment.
    pub buffer: Seq<AudioChunk>,
    /// Whether a speech segment is open.
    pub in_speech: bool,
}

/// The chunks of an optional utterance.
pub open spec fn opt_chunks(u: Option<Vec<AudioChunk>>) -> Option<Seq<AudioChunk>> {
    match u {
        Some(v) => Some(v@),
        None => None,
    }
}

/// One step of the pipeline on a chunk: the new state and the utterance
/// completed by the chunk, if any.
pub open spec fn pipeline_step(p: PipelineView, chunk: AudioChunk) -> (PipelineView, Option<Seq<AudioChunk>>) {
    let (vad, state) = vad_step(p.vad, rms(chunk.samples@));
    match state {
        VadState::SpeechStart => (PipelineView { vad, buffer: seq![chunk], in_speech: true }, None),
        VadState::Speech => (
            PipelineView {
                vad,
                buffer: if p.in_speech {
                    p.buffer.push(chunk)
                } else {
                    p.buffer
                },
                in_speech: p.in_speech,
            },
            None,
        ),
        VadState::SpeechEnd => if p.in_speech {
            (PipelineView { vad, buffer: Seq::empty(), in_speech: false }, Some(p.buffer.push(chunk)))
        } else {
            (PipelineView { vad, ..p }, None)
        },
        VadState::Silence => (
            PipelineView {
                vad,
                buffer: if p.in_speech {
                    p.buffer
                } else {
                    Seq::empty()
                },
                in_speech: p.in_speech,
            },
            None,
        ),
    }
}

/// The RMS energies of a sequence of chunks.
pub open spec fn chunk_energies(chunks: Seq<AudioChunk>) -> Seq<int> {
    chunks.map_values(|c: AudioChunk| rms(c.samples@))
}

/// The pipeline after a sequence of chunks, with what each call returned.
pub open spec fn pipeline_run(p: PipelineView, chunks: Seq<AudioChunk>) -> (PipelineView, Seq<Option<Seq<AudioChunk>>>)
    decreases chunks.len(),
{
    if chunks.len() == 0 {
        (p, Seq::empty())
    } else {
        let (before, outs) = pipeline_run(p, chunks.drop_last());
        let (after, out) = pipeline_step(before, chunks.last());
        (after, outs.push(out))
    }
}

/// The index of the `SpeechStart` that opens the run of `Speech` outputs
/// ending at `i`, if the run is opened so.
pub open spec fn speech_run_start(states: Seq<VadState>, i: int) -> Option<int>
    decreases i + 1,
{
    if i < 0 {
        None
    } else if states[i] == VadState::SpeechStart {
        Some(i)
    } else if states[i] == VadState::Speech {
        speech_run_start(states, i - 1)
    } else {
        None
    }
}

/// Where the utterance that ends at output `j` starts: `j` reports
/// `SpeechEnd`, and before it come a `SpeechStart` and then only `Speech`.
pub open spec fn utterance_start(states: Seq<VadState>, j: int) -> Option<int> {
    if states[j] == VadState::SpeechEnd {
        speech_run_start(states, j - 1)
    } else {
        None
    }
}

/// The utterance that output `j` hands out by the detector's outputs: the
/// chunks from the opening `SpeechStart` through `j`.
pub open spec fn utterance_at(states: Seq<VadState>, chunks: Seq<AudioChunk>, j: int) -> Option<Seq<AudioChunk>> {
    match utterance_start(states, j) {
        Some(k) => Some(chunks.subrange(k, j + 1)),
        None => None,
    }
}

/// `speech_run_start` looks only at outputs up to `i`.
proof fn lemma_run_start_prefix(s1: Seq<VadState>, s2: Seq<VadState>, i: int)
    requires
        i < s1.len() <= s2.len(),
        forall|k: int| 0 <= k < s1.len() ==> s1[k] == s2[k],
    ensures
        speech_run_start(s1, i) == speech_run_start(s2, i),
        speech_run_start(s1, i) matches Some(k) ==> 0 <= k <= i,
    decreases i + 1,
{
    if i >= 0 {
        lemma_run_start_prefix(s1, s2, i - 1);
    }
}

/// The pipeline follows its detector: after any sequence of chunks from a
/// pipeline with no open segment, its detector is the detector run on the
/// chunks, a segment is open exactly when the detector's outputs end in a
/// `SpeechStart` followed by `Speech` only, the buffer holds the chunks of
/// that run, and each call returned the utterance that the outputs delimit.
proof fn lemma_pipeline_run(p: PipelineView, chunks: Seq<AudioChunk>)
    requires
        !p.in_speech,
    ensures
        ({
            let (q, outs) = pipeline_run(p, chunks);
            let (w, states) = vad_run(p.vad, chunk_energies(chunks));
            let n = chunks.len() as int;
            &&& q.vad == w
            &&& outs.len() == n
            &&& states.len() == n
            &&& n > 0 ==> w.prev_state == states[n - 1]
            &&& q.in_speech == (speech_run_start(states, n - 1) is Some)
            &&& (speech_run_start(states, n - 1) matches Some(k) ==> 0 <= k < n && q.buffer
                == chunks.subrange(k, n))
            &&& forall|j: int| 0 <= j < n ==> outs[j] == utterance_at(states, chunks, j)
        }),
    decreases chunks.len(),
{
    if chunks.len() > 0 {
        let pre = chunks.drop_last();
        let c = chunks.last();
        let n = chunks.len() as int;
        lemma_pipeline_run(p, pre);
        assert(chunk_energies(chunks).drop_last() =~= chunk_energies(pre));
        let (q0, outs0) = pipeline_run(p, pre);
        let (w0, states0) = vad_run(p.vad, chunk_energies(pre));
        let (q, outs) = pipeline_run(p, chunks);
        let (w, states) = vad_run(p.vad, chunk_energies(chunks));
        let e = chunk_energies(chunks).last();
        assert(e == rms(c.samples@));
        assert(states == states0.push(vad_step(w0, e).1));
        assert(w == vad_step(w0, e).0);
        let s = states[n - 1];
        assert forall|k: int| 0 <= k < states0.len() implies states0[k] == states[k] by {}
        if n >= 2 {
            lemma_run_start_prefix(states0, states, n - 2);
        }
        if q0.in_speech {
            assert(is_speaking(w0.prev_state));
            assert(s != VadState::Silence);
        }
        if let Some(k) = speech_run_start(states0, n - 2) {
            assert(q0.buffer.push(c) =~= chunks.subrange(k, n));
        }
        assert forall|j: int| 0 <= j < n implies outs[j] == utterance_at(states, chunks, j) by {
            if j < n - 1 {
                assert(outs[j] == outs0[j]);
                assert(utterance_at(states0, pre, j) == utterance_at(states, chunks, j)) by {
                    if j >= 1 {
                        lemma_run_start_prefix(states0, states, j - 1);
                    }
                    if let Some(k) = utterance_start(states0, j) {
                        assert(pre.subrange(k, j + 1) =~= chunks.subrange(k, j + 1));
                    }
                }
            }
        }
    }
}

/// Utterances are the detector's speech segments: fed a sequence of
/// chunks from a state with no open segment, the pipeline returns, at each
/// chunk, exactly the chunks from the `SpeechStart` that opened the
/// current segment through this chunk when the detector reports
/// `SpeechEnd` for it after that start and only `Speech` in between, and
/// nothing otherwise.
pub proof fn law_utterances_are_speech_segments(p: PipelineView, chunks: Seq<AudioChunk>)
    requires
        !p.in_speech,
    ensures
        ({
            let (_, outs) = pipeline_run(p, chunks);
            let (_, states) = vad_run(p.vad, chunk_energies(chunks));
            &&& outs.len() == chunks.len()
            &&& forall|j: int| 0 <= j < chunks.len() ==> outs[j] == utterance_at(states, chunks, j)
        }),
{
    lemma_pipeline_run(p, chunks);
}

/// The pipeline after a reset: empty buffer, no open segment, detector
/// cleared.
pub open spec fn reset_pipeline(p: PipelineView) -> PipelineView {
    PipelineView { vad: cleared(p.vad), buffer: Seq::empty(), in_speech: false }
}

/// A reset gives a new pipeline: after a reset, a pipeline is the one that
/// `AudioPipeline::new` makes around a detector built by `VadEngine::new()`
/// and the `with_*` builders with the same threshold and frame counts, so
/// it behaves as that one on every later chunk.
pub proof fn law_reset_gives_a_new_pipeline(p: PipelineView)
    requires
        settings_valid(p.vad),
    ensures
        reset_pipeline(p) == (PipelineView {
            vad: configured_vad(p.vad.threshold, p.vad.speech_frames_needed, p.vad.silence_frames_needed),
            buffer: Seq::empty(),
            in_speech: false,
        }),
{
}

/// Collects audio chunks and uses voice activity detection to segment them
/// into utterances.
pub struct AudioPipeline {
    vad: VadEngine,
    buffer: Vec<AudioChunk>,
    in_speech: bool,
}

impl View for AudioPipeline {
    type V = PipelineView;

    closed spec fn view(&self) -> PipelineView {
        PipelineView { vad: self.vad@, buffer: self.buffer@, in_speech: self.in_speech }
    }
}

impl AudioPipeline {
    /// A pipeline around the given detector, with an empty buffer.
    pub fn new(vad: VadEngine) -> (p: Self)
        ensures
            p@ == (PipelineView { vad: vad@, buffer: Seq::empty(), in_speech: false }),
            settings_valid(p@.vad),
    {
        proof {
            use_type_invariant(&vad);
        }
        AudioPipeline { vad, buffer: Vec::new(), in_speech: false }
    }

    /// Whether `process` can take `chunk`: the detector's counters have room
    /// and the chunk's energy can be computed.
    pub fn can_process(&self, chunk: &AudioChunk) -> (r: bool)
        ensures
            r == (can_step(self@.vad) && sum_sq(chunk.samples@) <= u64::MAX),
    {
        self.vad.counters_fit() && crate::vad::energy_fits(&chunk.samples)
    }

    /// Processes one chunk. Returns the utterance when the detector reports
    /// the end of speech: the chunks from the speech start through this
    /// chunk.
    pub fn process(&mut self, chunk: AudioChunk) -> (u: Option<Vec<AudioChunk>>)
        requires
            can_step(old(self)@.vad),
            sum_sq(chunk.samples@) <= u64::MAX,
        ensures
            (final(self)@, opt_chunks(u)) == pipeline_step(old(self)@, chunk),
    {
        let ghost c = chunk;
        let state = self.vad.process(&chunk.samples);
        match state {
            VadState::SpeechStart => {
                self.buffer.clear();
                self.buffer.push(chunk);
                self.in_speech = true;
                assert(self.buffer@ =~= seq![c]);
                None
            },
            VadState::Speech => {
                if self.in_speech {
                    self.buffer.push(chunk);
                }
                None
            },
            VadState::SpeechEnd => {
                if self.in_speech {
                    self.buffer.push(chunk);
                    self.in_speech = false;
                    let mut utterance: Vec<AudioChunk> = Vec::new();
                    std::mem::swap(&mut utterance, &mut self.buffer);
                    Some(utterance)
                } else {
                    None
                }
            },
            VadState::Silence => {
                if !self.in_speech {
                    self.buffer.clear();
                }
                None
            },
        }
    }

    /// Hands out the collected chunks as an utterance, if there are any,
    /// and resets the detector (for a manual stop or a timeout).
    pub fn flush(&mut self) -> (u: Option<Vec<AudioChunk>>)
        ensures
            old(self)@.buffer.len() == 0 ==> final(self)@ == old(self)@ && u is None,
            old(self)@.buffer.len() > 0 ==> {
                &&& u matches Some(v) && v@ == old(self)@.buffer
                &&& final(self)@ == (PipelineView { vad: cleared(old(self)@.vad), buffer: Seq::empty(), in_speech: false })
            },
    {
        if self.buffer.len() == 0 {
            return None;
        }
        self.in_speech = false;
        self.vad.reset();
        let mut utterance: Vec<AudioChunk> = Vec::new();
        std::mem::swap(&mut utterance, &mut self.buffer);
        Some(utterance)
    }

    /// Returns to the initial state: empty buffer, no open segment, detector
    /// reset.
    pub fn reset(&mut self)
        ensures
            final(self)@ == reset_pipeline(old(self)@),
            settings_valid(final(self)@.vad),
    {
        self.buffer.clear();
        self.in_speech = false;
        self.vad.reset();
    }
}

} // verus!
