//! Voice activity detection.
//!
//! An energy-based detector with hysteresis: the RMS energy of each frame is
//! compared with a threshold, and a run of consecutive loud (or quiet)
//! frames is needed before speech is declared started (or ended).
use vstd::prelude::*;

verus! {

/// Output of the detector for one frame.
#[derive(Debug, Clone, Copy, PartialEq, Eq, Structural)]
pub enum VadState {
    /// No speech.
    Silence,
    /// Speech has just been declared started: the frame at or above the
    /// threshold that completes the start debounce after silence.
    SpeechStart,
    /// Speech goes on.
    Speech,
    /// Speech has just been declared ended: the frame below the threshold
    /// that completes the end debounce after speech.
    SpeechEnd,
}

/// The state that goes on after `s`: a transition is reported once, and
/// the frames after it get the state it led into.
pub open spec fn steady(s: VadState) -> VadState {
    match s {
        VadState::SpeechStart => VadState::Speech,
        VadState::SpeechEnd => VadState::Silence,
        _ => s,
    }
}

/// Settings that every detector has: a threshold and frame counts of at
/// least 1.
pub open spec fn settings_valid(v: VadView) -> bool {
    v.threshold >= 1 && v.speech_frames_needed >= 1 && v.silence_frames_needed >= 1
}

/// Whether the detector is inside an utterance after reporting `s`.
pub open spec fn is_speaking(s: VadState) -> bool {
    s == VadState::SpeechStart || s == VadState::Speech
}

/// The state of a detector.
pub struct VadView {
    /// RMS energy at or above which a frame counts as speech.
    pub threshold: i32,
    /// Consecutive speech frames needed to declare speech started.
    pub speech_frames_needed: usize,
    /// Consecutive quiet frames needed to declare speech ended.
    pub silence_frames_needed: usize,
    /// Consecutive speech frames seen last.
    pub speech_count: usize,
    /// Consecutive quiet frames seen last.
    pub silence_count: usize,
    /// The state reported last.
    pub prev_state: VadState,
}

/// Whether one more frame can be counted without overflowing a counter.
pub open spec fn can_step(v: VadView) -> bool {
    v.speech_count < usize::MAX && v.silence_count < usize::MAX
}

/// One step of the detector on a frame of the given RMS energy: the new
/// state and the reported output. While a run of frames is too short to
/// switch, the steady state after the last output is reported.
pub open spec fn vad_step(v: VadView, energy: int) -> (VadView, VadState) {
    if energy >= v.threshold {
        let speech_count = (v.speech_count + 1) as usize;
        let out = if speech_count >= v.speech_frames_needed {
            if v.prev_state == VadState::Silence || v.prev_state == VadState::SpeechEnd {
                VadState::SpeechStart
            } else {
                VadState::Speech
            }
        } else {
            steady(v.prev_state)
        };
        (VadView { speech_count, silence_count: 0, prev_state: out, ..v }, out)
    } else {
        let silence_count = (v.silence_count + 1) as usize;
        let out = if silence_count >= v.silence_frames_needed {
            if v.prev_state == VadState::Speech || v.prev_state == VadState::SpeechStart {
                VadState::SpeechEnd
            } else {
                VadState::Silence
            }
        } else {
            steady(v.prev_state)
        };
        (VadView { speech_count: 0, silence_count, prev_state: out, ..v }, out)
    }
}

/// The detector after a sequence of frames of the given energies, with the
/// outputs it reported, one per frame.
pub open spec fn vad_run(v: VadView, energies: Seq<int>) -> (VadView, Seq<VadState>)
    decreases energies.len(),
{
    if energies.len() == 0 {
        (v, Seq::empty())
    } else {
        let (before, outs) = vad_run(v, energies.drop_last());
        let (after, out) = vad_step(before, energies.last());
        (after, outs.push(out))
    }
}

/// The detector with its counters cleared and back in `Silence`; the
/// settings stay.
pub open spec fn cleared(v: VadView) -> VadView {
    VadView { speech_count: 0, silence_count: 0, prev_state: VadState::Silence, ..v }
}

/// The detector that `VadEngine::new()` followed by `with_threshold(t)`,
/// `with_speech_frames(n)` and `with_silence_frames(s)` builds: settings
/// below 1 become 1, the counters are clear and the state is `Silence`.
pub open spec fn configured_vad(t: i32, n: usize, s: usize) -> VadView {
    VadView {
        threshold: if t < 1 { 1 } else { t },
        speech_frames_needed: if n < 1 { 1 } else { n },
        silence_frames_needed: if s < 1 { 1 } else { s },
        speech_count: 0,
        silence_count: 0,
        prev_state: VadState::Silence,
    }
}

/// Number of frames at or above `threshold` that end `energies[0..n]`.
pub open spec fn trailing_loud(energies: Seq<int>, threshold: int, n: int) -> nat
    decreases n,
{
    if n <= 0 {
        0
    } else if energies[n - 1] >= threshold {
        trailing_loud(energies, threshold, n - 1) + 1
    } else {
        0
    }
}

/// Number of frames below `threshold` that end `energies[0..n]`.
pub open spec fn trailing_quiet(energies: Seq<int>, threshold: int, n: int) -> nat
    decreases n,
{
    if n <= 0 {
        0
    } else if energies[n - 1] < threshold {
        trailing_quiet(energies, threshold, n - 1) + 1
    } else {
        0
    }
}

/// The output reported before output `j` of a run from `v`.
pub open spec fn output_before(v: VadView, states: Seq<VadState>, j: int) -> VadState {
    if j == 0 {
        v.prev_state
    } else {
        states[j - 1]
    }
}

/// Sum of the squares of the samples.
pub open spec fn sum_sq(samples: Seq<i16>) -> int
    decreases samples.len(),
{
    if samples.len() == 0 {
        0
    } else {
        sum_sq(samples.drop_last()) + samples.last() * samples.last()
    }
}

/// Whether `r` is the integer square root of `n` (rounded down).
pub open spec fn is_floor_sqrt(r: int, n: int) -> bool {
    0 <= r && r * r <= n < (r + 1) * (r + 1)
}

/// The integer square root of `n` (rounded down).
pub open spec fn floor_sqrt(n: int) -> int {
    choose|r: int| is_floor_sqrt(r, n)
}

/// RMS energy of a frame, in sample units: the square root (rounded down)
/// of the mean of the squared samples, 0 for an empty frame.
pub open spec fn rms(samples: Seq<i16>) -> int {
    if samples.len() == 0 {
        0
    } else {
        floor_sqrt(sum_sq(samples) / samples.len() as int)
    }
}

/// Energy-based voice activity detector with hysteresis.
pub struct VadEngine {
    threshold: i32,
    speech_frames_needed: usize,
    silence_frames_needed: usize,
    speech_count: usize,
    silence_count: usize,
    prev_state: VadState,
}

impl View for VadEngine {
    type V = VadView;

    closed spec fn view(&self) -> VadView {
        VadView {
            threshold: self.threshold,
            speech_frames_needed: self.speech_frames_needed,
            silence_frames_needed: self.silence_frames_needed,
            speech_count: self.speech_count,
            silence_count: self.silence_count,
            prev_state: self.prev_state,
        }
    }
}

/// Trailing runs hold what they count.
proof fn lemma_trailing_runs(energies: Seq<int>, threshold: int, n: int)
    requires
        0 <= n <= energies.len(),
    ensures
        forall|i: int|
            n - trailing_loud(energies, threshold, n) <= i < n ==> 0 <= i && energies[i] >= threshold,
        forall|i: int|
            n - trailing_quiet(energies, threshold, n) <= i < n ==> 0 <= i && energies[i] < threshold,
        trailing_loud(energies, threshold, n) <= n,
        trailing_quiet(energies, threshold, n) <= n,
    decreases n,
{
    if n > 0 {
        lemma_trailing_runs(energies, threshold, n - 1);
    }
}

/// Along a run from a detector with cleared counters, the counters are
/// the lengths of the trailing loud and quiet runs, and the settings stay.
proof fn lemma_vad_run_counts(v: VadView, energies: Seq<int>)
    requires
        v.speech_count == 0,
        v.silence_count == 0,
        energies.len() < usize::MAX,
    ensures
        ({
            let (w, states) = vad_run(v, energies);
            let n = energies.len() as int;
            &&& states.len() == n
            &&& w.threshold == v.threshold
            &&& w.speech_frames_needed == v.speech_frames_needed
            &&& w.silence_frames_needed == v.silence_frames_needed
            &&& w.speech_count == trailing_loud(energies, v.threshold as int, n)
            &&& w.silence_count == trailing_quiet(energies, v.threshold as int, n)
            &&& w.prev_state == output_before(v, states, n)
        }),
    decreases energies.len(),
{
    if energies.len() > 0 {
        let pre = energies.drop_last();
        let n = energies.len() as int;
        let t = v.threshold as int;
        lemma_vad_run_counts(v, pre);
        lemma_trailing_runs(pre, t, n - 1);
        lemma_trailing_prefix(pre, energies, t, n - 1);
        let (w0, states0) = vad_run(v, pre);
        let e = energies[n - 1];
        assert(energies.last() == e);
        let (w, out) = vad_step(w0, e);
        assert(vad_run(v, energies) == (w, states0.push(out)));
        if e >= t {
            assert(trailing_loud(energies, t, n) == trailing_loud(energies, t, n - 1) + 1);
            assert(trailing_quiet(energies, t, n) == 0);
        } else {
            assert(trailing_quiet(energies, t, n) == trailing_quiet(energies, t, n - 1) + 1);
            assert(trailing_loud(energies, t, n) == 0);
        }
        assert(states0.push(out)[n - 1] == out);
    }
}

/// Trailing runs of a prefix are those of the whole sequence.
proof fn lemma_trailing_prefix(e1: Seq<int>, e2: Seq<int>, threshold: int, m: int)
    requires
        0 <= m <= e1.len() <= e2.len(),
        forall|k: int| 0 <= k < e1.len() ==> e1[k] == e2[k],
    ensures
        trailing_loud(e1, threshold, m) == trailing_loud(e2, threshold, m),
        trailing_quiet(e1, threshold, m) == trailing_quiet(e2, threshold, m),
    decreases m,
{
    if m > 0 {
        lemma_trailing_prefix(e1, e2, threshold, m - 1);
    }
}

/// Speech starts and ends are debounced: run from a detector with cleared
/// counters (new or reset), every `SpeechStart` follows an output outside
/// speech (`Silence` or `SpeechEnd`) and comes on the last of at least
/// `speech_frames_needed` consecutive frames at or above the threshold;
/// every `SpeechEnd` follows an output inside speech (`SpeechStart` or
/// `Speech`) and comes on the last of at least `silence_frames_needed`
/// consecutive frames below it.
pub proof fn law_transitions_are_debounced(v: VadView, energies: Seq<int>)
    requires
        v.speech_count == 0,
        v.silence_count == 0,
        energies.len() < usize::MAX,
    ensures
        ({
            let (_, states) = vad_run(v, energies);
            &&& states.len() == energies.len()
            &&& forall|j: int|
                0 <= j < states.len() && states[j] == VadState::SpeechStart ==> !is_speaking(
                    output_before(v, states, j),
                ) && j + 1 >= v.speech_frames_needed && forall|i: int|
                    j + 1 - v.speech_frames_needed <= i <= j ==> energies[i] >= v.threshold
            &&& forall|j: int|
                0 <= j < states.len() && states[j] == VadState::SpeechEnd ==> is_speaking(
                    output_before(v, states, j),
                ) && j + 1 >= v.silence_frames_needed && forall|i: int|
                    j + 1 - v.silence_frames_needed <= i <= j ==> energies[i] < v.threshold
        }),
{
    let (_, states) = vad_run(v, energies);
    lemma_vad_run_counts(v, energies);
    assert forall|j: int| 0 <= j < states.len() implies ({
        &&& states[j] == VadState::SpeechStart ==> !is_speaking(output_before(v, states, j))
            && j + 1 >= v.speech_frames_needed && forall|i: int|
            j + 1 - v.speech_frames_needed <= i <= j ==> energies[i] >= v.threshold
        &&& states[j] == VadState::SpeechEnd ==> is_speaking(output_before(v, states, j))
            && j + 1 >= v.silence_frames_needed && forall|i: int|
            j + 1 - v.silence_frames_needed <= i <= j ==> energies[i] < v.threshold
    }) by {
        lemma_output_at(v, energies, j);
    }
}

/// The outputs of a run on a prefix are a prefix of the outputs.
proof fn lemma_vad_run_prefix(v: VadView, energies: Seq<int>, m: int)
    requires
        0 <= m <= energies.len(),
    ensures
        vad_run(v, energies.subrange(0, m)).1 == vad_run(v, energies).1.subrange(0, m),
        vad_run(v, energies).1.len() == energies.len(),
    decreases energies.len(),
{
    if energies.len() > 0 {
        lemma_vad_run_prefix(v, energies.drop_last(), if m == energies.len() { 0 } else { m });
        if m == energies.len() {
            assert(energies.subrange(0, m) =~= energies);
            assert(vad_run(v, energies).1.subrange(0, m) =~= vad_run(v, energies).1);
        } else {
            assert(energies.drop_last().subrange(0, m) =~= energies.subrange(0, m));
            assert(vad_run(v, energies).1.subrange(0, m) =~= vad_run(v, energies.drop_last()).1.subrange(0, m));
        }
    } else {
        assert(energies.subrange(0, m) =~= energies);
    }
}

/// The debounce facts at one output.
proof fn lemma_output_at(v: VadView, energies: Seq<int>, j: int)
    requires
        v.speech_count == 0,
        v.silence_count == 0,
        energies.len() < usize::MAX,
        0 <= j < energies.len(),
    ensures
        ({
            let (_, states) = vad_run(v, energies);
            &&& states[j] == VadState::SpeechStart ==> !is_speaking(output_before(v, states, j))
                && j + 1 >= v.speech_frames_needed && forall|i: int|
                j + 1 - v.speech_frames_needed <= i <= j ==> energies[i] >= v.threshold
            &&& states[j] == VadState::SpeechEnd ==> is_speaking(output_before(v, states, j))
                && j + 1 >= v.silence_frames_needed && forall|i: int|
                j + 1 - v.silence_frames_needed <= i <= j ==> energies[i] < v.threshold
        }),
{
    let t = v.threshold as int;
    let (_, states) = vad_run(v, energies);
    let upto = energies.subrange(0, j + 1);
    let before = energies.subrange(0, j);
    lemma_vad_run_prefix(v, energies, j + 1);
    lemma_vad_run_prefix(v, energies, j);
    lemma_vad_run_counts(v, upto);
    lemma_vad_run_counts(v, before);
    lemma_trailing_runs(upto, t, j + 1);
    assert(upto.drop_last() =~= before);
    let (w0, states0) = vad_run(v, before);
    let (w1, states1) = vad_run(v, upto);
    assert(states1 == states.subrange(0, j + 1));
    assert(states0 == states.subrange(0, j));
    assert(states1[j] == states[j]);
    assert(upto.last() == energies[j]);
    assert(states1[j] == vad_step(w0, energies[j]).1);
    law_utterances_are_bracketed(w0, energies[j]);
    assert(w0.prev_state == output_before(v, states, j)) by {
        if j > 0 {
            assert(states0[j - 1] == states[j - 1]);
        }
    }
    assert forall|i: int| 0 <= i <= j implies upto[i] == energies[i] by {}
}

/// Utterances are bracketed and transitions are reported once: the
/// detector remembers what it reported; from outside an utterance
/// (`Silence` or `SpeechEnd`) it reports `Silence` or `SpeechStart` next,
/// and from inside one (`SpeechStart` or `Speech`) it reports `Speech` or
/// `SpeechEnd` next. So `SpeechStart` and `SpeechEnd` never come twice in
/// a row, and a frame that does not complete a debounce gets the steady
/// state after the last output.
pub proof fn law_utterances_are_bracketed(v: VadView, energy: int)
    ensures
        ({
            let (w, out) = vad_step(v, energy);
            &&& w.prev_state == out
            &&& !is_speaking(v.prev_state) ==> (out == VadState::Silence || out == VadState::SpeechStart)
            &&& is_speaking(v.prev_state) ==> (out == VadState::Speech || out == VadState::SpeechEnd)
            &&& out == VadState::SpeechStart ==> energy >= v.threshold
            &&& out == VadState::SpeechEnd ==> energy < v.threshold
        }),
{
}

/// The output on the `k`-th (from 1) of consecutive frames at or above the
/// threshold, from outside speech with no such frame counted.
pub open spec fn loud_run_output(k: int, needed: int) -> VadState {
    if k < needed {
        VadState::Silence
    } else if k == needed {
        VadState::SpeechStart
    } else {
        VadState::Speech
    }
}

/// The output on the `k`-th (from 1) of consecutive frames below the
/// threshold, from inside speech with no such frame counted.
pub open spec fn quiet_run_output(k: int, needed: int) -> VadState {
    if k < needed {
        VadState::Speech
    } else if k == needed {
        VadState::SpeechEnd
    } else {
        VadState::Silence
    }
}

/// Outputs and counters along a run of loud frames from outside speech.
proof fn lemma_loud_run(v: VadView, energies: Seq<int>)
    requires
        settings_valid(v),
        v.speech_count == 0,
        !is_speaking(v.prev_state),
        energies.len() < usize::MAX,
        forall|i: int| 0 <= i < energies.len() ==> energies[i] >= v.threshold,
    ensures
        ({
            let (w, states) = vad_run(v, energies);
            let n = energies.len() as int;
            &&& states.len() == n
            &&& w.speech_count == n
            &&& w.speech_frames_needed == v.speech_frames_needed
            &&& w.threshold == v.threshold
            &&& n > 0 ==> w.prev_state == states[n - 1]
            &&& forall|i: int|
                0 <= i < n ==> states[i] == loud_run_output(i + 1, v.speech_frames_needed as int)
        }),
    decreases energies.len(),
{
    if energies.len() > 0 {
        let pre = energies.drop_last();
        let n = energies.len() as int;
        lemma_loud_run(v, pre);
        let (w0, states0) = vad_run(v, pre);
        assert(energies.last() == energies[n - 1]);
        let (w, out) = vad_step(w0, energies[n - 1]);
        assert(vad_run(v, energies) == (w, states0.push(out)));
        if n == 1 {
            assert(w0 == v);
        }
        assert(out == loud_run_output(n, v.speech_frames_needed as int));
    }
}

/// Outputs and counters along a run of quiet frames from inside speech.
proof fn lemma_quiet_run(v: VadView, energies: Seq<int>)
    requires
        settings_valid(v),
        v.silence_count == 0,
        is_speaking(v.prev_state),
        energies.len() < usize::MAX,
        forall|i: int| 0 <= i < energies.len() ==> energies[i] < v.threshold,
    ensures
        ({
            let (w, states) = vad_run(v, energies);
            let n = energies.len() as int;
            &&& states.len() == n
            &&& w.silence_count == n
            &&& w.silence_frames_needed == v.silence_frames_needed
            &&& w.threshold == v.threshold
            &&& n > 0 ==> w.prev_state == states[n - 1]
            &&& forall|i: int|
                0 <= i < n ==> states[i] == quiet_run_output(i + 1, v.silence_frames_needed as int)
        }),
    decreases energies.len(),
{
    if energies.len() > 0 {
        let pre = energies.drop_last();
        let n = energies.len() as int;
        lemma_quiet_run(v, pre);
        let (w0, states0) = vad_run(v, pre);
        assert(energies.last() == energies[n - 1]);
        let (w, out) = vad_step(w0, energies[n - 1]);
        assert(vad_run(v, energies) == (w, states0.push(out)));
        if n == 1 {
            assert(w0 == v);
        }
        assert(out == quiet_run_output(n, v.silence_frames_needed as int));
    }
}

/// Speech starts exactly on the `speech_frames_needed`-th loud frame: from
/// a detector outside speech with no loud frame counted (new, reset, or
/// after a quiet frame), consecutive frames at or above the threshold
/// report `Silence` before the `speech_frames_needed`-th, `SpeechStart` on
/// it, and `Speech` after it.
pub proof fn law_speech_starts_on_the_nth_loud_frame(v: VadView, energies: Seq<int>)
    requires
        settings_valid(v),
        v.speech_count == 0,
        !is_speaking(v.prev_state),
        energies.len() < usize::MAX,
        forall|i: int| 0 <= i < energies.len() ==> energies[i] >= v.threshold,
    ensures
        ({
            let (_, states) = vad_run(v, energies);
            &&& states.len() == energies.len()
            &&& forall|i: int|
                0 <= i < states.len() ==> states[i] == loud_run_output(i + 1, v.speech_frames_needed as int)
        }),
{
    lemma_loud_run(v, energies);
}

/// Speech ends exactly on the `silence_frames_needed`-th quiet frame: from
/// a detector inside speech with no quiet frame counted (after a frame at
/// or above the threshold), consecutive frames below the threshold report
/// `Speech` before the `silence_frames_needed`-th, `SpeechEnd` on it, and
/// `Silence` after it.
pub proof fn law_speech_ends_on_the_nth_quiet_frame(v: VadView, energies: Seq<int>)
    requires
        settings_valid(v),
        v.silence_count == 0,
        is_speaking(v.prev_state),
        energies.len() < usize::MAX,
        forall|i: int| 0 <= i < energies.len() ==> energies[i] < v.threshold,
    ensures
        ({
            let (_, states) = vad_run(v, energies);
            &&& states.len() == energies.len()
            &&& forall|i: int|
                0 <= i < states.len() ==> states[i] == quiet_run_output(i + 1, v.silence_frames_needed as int)
        }),
{
    lemma_quiet_run(v, energies);
}

/// A reset forgets the frames seen: frames never change the settings, so
/// resetting after any sequence of frames gives the same detector as
/// resetting before them.
pub proof fn law_reset_forgets_history(v: VadView, energies: Seq<int>)
    ensures
        cleared(vad_run(v, energies).0) == cleared(v),
    decreases energies.len(),
{
    if energies.len() > 0 {
        law_reset_forgets_history(v, energies.drop_last());
    }
}

/// The square root is unique.
proof fn lemma_floor_sqrt_unique(r: int, n: int)
    requires
        is_floor_sqrt(r, n),
    ensures
        floor_sqrt(n) == r,
{
    let s = floor_sqrt(n);
    assert(is_floor_sqrt(s, n));
    if s < r {
        assert((s + 1) * (s + 1) <= r * r) by (nonlinear_arith)
            requires
                0 <= s < r,
        ;
    } else if s > r {
        assert((r + 1) * (r + 1) <= s * s) by (nonlinear_arith)
            requires
                0 <= r < s,
        ;
    }
}

/// The square of a sample is at most 2^30.
proof fn lemma_square_bound(x: i16)
    ensures
        0 <= x * x <= 0x4000_0000,
{
    assert(0 <= x * x <= 0x4000_0000) by (nonlinear_arith)
        requires
            -32768 <= x <= 32767,
    ;
}

/// Sums of squares grow with the prefix and stay below 2^30 per sample.
proof fn lemma_sum_sq_bounds(s: Seq<i16>, i: int)
    requires
        0 <= i <= s.len(),
    ensures
        0 <= sum_sq(s.subrange(0, i)) <= sum_sq(s),
        sum_sq(s) <= s.len() * 0x4000_0000,
    decreases s.len(),
{
    if s.len() > 0 {
        lemma_square_bound(s.last());
        if i == s.len() {
            assert(s.subrange(0, i) =~= s);
            lemma_sum_sq_bounds(s.drop_last(), 0);
        } else {
            assert(s.subrange(0, i) =~= s.drop_last().subrange(0, i));
            lemma_sum_sq_bounds(s.drop_last(), i);
        }
    } else {
        assert(s.subrange(0, i) =~= s);
    }
}

/// The integer square root of `n` (at most 2^30).
fn isqrt(n: u64) -> (r: u64)
    requires
        n <= 0x4000_0000,
    ensures
        is_floor_sqrt(r as int, n as int),
        r <= 0x8000,
{
    let mut lo: u64 = 0;
    let mut hi: u64 = 0x8001;
    assert(0x8001 * 0x8001 > 0x4000_0000) by (nonlinear_arith);
    while hi - lo > 1
        invariant
            lo < hi <= 0x8001,
            lo * lo <= n,
            n < hi * hi,
        decreases hi - lo,
    {
        let mid = lo + (hi - lo) / 2;
        assert(mid * mid <= 0x8001 * 0x8001) by (nonlinear_arith)
            requires
                mid <= 0x8001,
        ;
        if mid * mid <= n {
            lo = mid;
        } else {
            hi = mid;
        }
    }
    assert(lo <= 0x8000);
    lo
}

/// RMS energy of a frame.
fn rms_energy(samples: &[i16]) -> (e: i32)
    requires
        sum_sq(samples@) <= u64::MAX,
    ensures
        e == rms(samples@),
{
    if samples.len() == 0 {
        return 0;
    }
    let mut sum_sq_acc: u64 = 0;
    let mut i: usize = 0;
    while i < samples.len()
        invariant
            i <= samples@.len(),
            sum_sq(samples@) <= u64::MAX,
            sum_sq_acc == sum_sq(samples@.subrange(0, i as int)),
        decreases samples@.len() - i,
    {
        let s = samples[i] as i64;
        proof {
            lemma_square_bound(samples@[i as int]);
            assert(samples@.subrange(0, i + 1).drop_last() =~= samples@.subrange(0, i as int));
            lemma_sum_sq_bounds(samples@, i + 1);
        }
        sum_sq_acc = sum_sq_acc + (s * s) as u64;
        i = i + 1;
    }
    proof {
        assert(samples@.subrange(0, samples@.len() as int) =~= samples@);
        lemma_sum_sq_bounds(samples@, 0);
    }
    let len = samples.len() as u64;
    let mean_sq = sum_sq_acc / len;
    assert(mean_sq <= 0x4000_0000) by (nonlinear_arith)
        requires
            sum_sq_acc <= len * 0x4000_0000,
            len > 0,
            mean_sq == sum_sq_acc / len,
    ;
    let r = isqrt(mean_sq);
    proof {
        lemma_floor_sqrt_unique(r as int, mean_sq as int);
    }
    r as i32
}

/// Whether the squared samples of a frame sum to at most `u64::MAX`, so
/// that the frame's energy can be computed.
pub fn energy_fits(samples: &[i16]) -> (r: bool)
    ensures
        r == (sum_sq(samples@) <= u64::MAX),
{
    let mut acc: u64 = 0;
    let mut i: usize = 0;
    while i < samples.len()
        invariant
            i <= samples@.len(),
            acc == sum_sq(samples@.subrange(0, i as int)),
        decreases samples@.len() - i,
    {
        let s = samples[i] as i64;
        proof {
            lemma_square_bound(samples@[i as int]);
            assert(samples@.subrange(0, i + 1).drop_last() =~= samples@.subrange(0, i as int));
        }
        match acc.checked_add((s * s) as u64) {
            Some(next) => acc = next,
            None => {
                proof {
                    lemma_sum_sq_bounds(samples@, i + 1);
                }
                return false;
            },
        }
        i = i + 1;
    }
    assert(samples@.subrange(0, samples@.len() as int) =~= samples@);
    true
}

impl VadEngine {
    /// Every detector has a threshold and frame counts of at least 1.
    #[verifier::type_invariant]
    pub(crate) open spec fn settings_hold(self) -> bool {
        settings_valid(self@)
    }

    /// Whether one more frame can be counted without overflowing a counter.
    pub fn counters_fit(&self) -> (r: bool)
        ensures
            r == can_step(self@),
    {
        self.speech_count < usize::MAX && self.silence_count < usize::MAX
    }

    /// A detector with threshold 800, 3 speech frames to start and 10
    /// quiet frames to end (suited to 30 ms frames at 16 kHz).
    pub fn new() -> (v: Self)
        ensures
            v@ == (VadView {
                threshold: 800,
                speech_frames_needed: 3,
                silence_frames_needed: 10,
                speech_count: 0,
                silence_count: 0,
                prev_state: VadState::Silence,
            }),
    {
        VadEngine {
            threshold: 800,
            speech_frames_needed: 3,
            silence_frames_needed: 10,
            speech_count: 0,
            silence_count: 0,
            prev_state: VadState::Silence,
        }
    }

    /// Sets the energy threshold; values below 1 become 1.
    pub fn with_threshold(self, threshold: i32) -> (v: Self)
        ensures
            v@ == (VadView { threshold: if threshold < 1 { 1 } else { threshold }, ..self@ }),
    {
        let mut s = self;
        proof {
            use_type_invariant(&s);
        }
        s.threshold = if threshold < 1 { 1 } else { threshold };
        s
    }

    /// Sets the number of consecutive speech frames that start speech;
    /// 0 becomes 1.
    pub fn with_speech_frames(self, n: usize) -> (v: Self)
        ensures
            v@ == (VadView { speech_frames_needed: if n < 1 { 1 } else { n }, ..self@ }),
    {
        let mut s = self;
        proof {
            use_type_invariant(&s);
        }
        s.speech_frames_needed = if n < 1 { 1 } else { n };
        s
    }

    /// Sets the number of consecutive quiet frames that end speech;
    /// 0 becomes 1.
    pub fn with_silence_frames(self, n: usize) -> (v: Self)
        ensures
            v@ == (VadView { silence_frames_needed: if n < 1 { 1 } else { n }, ..self@ }),
    {
        let mut s = self;
        proof {
            use_type_invariant(&s);
        }
        s.silence_frames_needed = if n < 1 { 1 } else { n };
        s
    }

    /// Processes one frame of mono 16-bit PCM samples and reports the
    /// detector's state.
    pub fn process(&mut self, samples: &[i16]) -> (state: VadState)
        requires
            can_step(old(self)@),
            sum_sq(samples@) <= u64::MAX,
        ensures
            (final(self)@, state) == vad_step(old(self)@, rms(samples@)),
            settings_valid(final(self)@),
    {
        proof {
            use_type_invariant(&*self);
        }
        let energy = rms_energy(samples);
        let is_speech = energy >= self.threshold;

        let state = if is_speech {
            self.silence_count = 0;
            self.speech_count = self.speech_count + 1;
            if self.speech_count >= self.speech_frames_needed {
                if self.prev_state == VadState::Silence || self.prev_state == VadState::SpeechEnd {
                    VadState::SpeechStart
                } else {
                    VadState::Speech
                }
            } else {
                Self::steady_after(self.prev_state)
            }
        } else {
            self.speech_count = 0;
            self.silence_count = self.silence_count + 1;
            if self.silence_count >= self.silence_frames_needed {
                if self.prev_state == VadState::Speech || self.prev_state == VadState::SpeechStart {
                    VadState::SpeechEnd
                } else {
                    VadState::Silence
                }
            } else {
                Self::steady_after(self.prev_state)
            }
        };
        self.prev_state = state;
        state
    }

    /// The state that goes on after `s`.
    fn steady_after(s: VadState) -> (t: VadState)
        ensures
            t == steady(s),
    {
        match s {
            VadState::SpeechStart => VadState::Speech,
            VadState::SpeechEnd => VadState::Silence,
            other => other,
        }
    }

    /// Clears the counters and returns to `Silence`; the settings stay.
    pub fn reset(&mut self)
        ensures
            final(self)@ == cleared(old(self)@),
            settings_valid(final(self)@),
    {
        proof {
            use_type_invariant(&*self);
        }
        self.speech_count = 0;
        self.silence_count = 0;
        self.prev_state = VadState::Silence;
    }

    /// The state reported last.
    pub fn prev_state(&self) -> (s: VadState)
        ensures
            s == self@.prev_state,
    {
        self.prev_state
    }
}

impl Default for VadEngine {
    fn default() -> (v: Self)
        ensures
            v@ == (VadView {
                threshold: 800,
                speech_frames_needed: 3,
                silence_frames_needed: 10,
                speech_count: 0,
                silence_count: 0,
                prev_state: VadState::Silence,
            }),
    {
        Self::new()
    }
}

} // verus!
