use english_partner::vad::{VadEngine, VadState};

fn silence_frame(len: usize) -> Vec<i16> {
    vec![0i16; len]
}

fn speech_frame(len: usize, amplitude: i16) -> Vec<i16> {
    // Sine wave at amplitude
    (0..len)
        .map(|i| {
            let angle = 2.0 * std::f64::consts::PI * (i as f64) / (len as f64 / 4.0);
            (angle.sin() * amplitude as f64) as i16
        })
        .collect()
}

#[test]
fn test_silence_stays_silent() {
    let mut vad = VadEngine::new().with_threshold(100);
    let frame = silence_frame(480); // 30ms @ 16kHz
    for _ in 0..20 {
        assert_eq!(vad.process(&frame), VadState::Silence);
    }
}

#[test]
fn test_speech_start_after_debounce() {
    let mut vad = VadEngine::new()
        .with_threshold(100)
        .with_speech_frames(3)
        .with_silence_frames(5);

    let silence = silence_frame(480);
    let speech = speech_frame(480, 2000);

    // Initial silence
    assert_eq!(vad.process(&silence), VadState::Silence);

    // 2 frames of speech — still hysteresis
    assert_eq!(vad.process(&speech), VadState::Silence);
    assert_eq!(vad.process(&speech), VadState::Silence);

    // 3rd frame — SpeechStart
    assert_eq!(vad.process(&speech), VadState::SpeechStart);

    // Continues
    assert_eq!(vad.process(&speech), VadState::Speech);
}

#[test]
fn test_speech_end_after_debounce() {
    let mut vad = VadEngine::new()
        .with_threshold(100)
        .with_speech_frames(1)
        .with_silence_frames(3);

    let silence = silence_frame(480);
    let speech = speech_frame(480, 2000);

    assert_eq!(vad.process(&speech), VadState::SpeechStart);
    assert_eq!(vad.process(&speech), VadState::Speech);

    // 2 frames of silence — still hysteresis
    assert_eq!(vad.process(&silence), VadState::Speech);
    assert_eq!(vad.process(&silence), VadState::Speech);

    // 3rd frame — SpeechEnd
    assert_eq!(vad.process(&silence), VadState::SpeechEnd);

    // Then silence
    assert_eq!(vad.process(&silence), VadState::Silence);
}

#[test]
fn test_reset() {
    let mut vad = VadEngine::new()
        .with_threshold(100)
        .with_speech_frames(1)
        .with_silence_frames(1);

    let speech = speech_frame(480, 2000);
    assert_eq!(vad.process(&speech), VadState::SpeechStart);

    vad.reset();
    assert_eq!(vad.prev_state(), VadState::Silence);
}

// ── Further cases ─────────────────────────────────────────────────────────

#[test]
fn threshold_is_rms_rounded_down() {
    // A constant frame of amplitude 100 has RMS exactly 100.
    let frame = vec![100i16; 10];
    let mut at = VadEngine::new().with_threshold(100).with_speech_frames(1);
    assert_eq!(at.process(&frame), VadState::SpeechStart);
    let mut above = VadEngine::new().with_threshold(101).with_speech_frames(1);
    assert_eq!(above.process(&frame), VadState::Silence);
    // RMS of [3, 4] is sqrt(12.5) = 3.53..., read as 3.
    let mut three = VadEngine::new().with_threshold(3).with_speech_frames(1);
    assert_eq!(three.process(&[3, 4]), VadState::SpeechStart);
    let mut four = VadEngine::new().with_threshold(4).with_speech_frames(1);
    assert_eq!(four.process(&[3, 4]), VadState::Silence);
}

#[test]
fn extreme_samples_and_empty_frames() {
    // Full-scale negative samples: RMS 32768.
    let loud = vec![i16::MIN; 480];
    let mut vad = VadEngine::new().with_threshold(32768).with_speech_frames(1);
    assert_eq!(vad.process(&loud), VadState::SpeechStart);
    // An empty frame has energy 0, which is below any threshold.
    let mut vad = VadEngine::new().with_threshold(-5).with_speech_frames(1);
    assert_eq!(vad.process(&[]), VadState::Silence);
}

#[test]
fn settings_are_clamped_to_one() {
    // Threshold 0 becomes 1, so a zero frame is silence; 0 frames become 1.
    let mut vad = VadEngine::new().with_threshold(0).with_speech_frames(0).with_silence_frames(0);
    assert_eq!(vad.process(&[0, 0]), VadState::Silence);
    assert_eq!(vad.process(&[1, 1]), VadState::SpeechStart);
    assert_eq!(vad.process(&[0, 0]), VadState::SpeechEnd);
}

#[test]
fn transitions_are_reported_once() {
    // A quiet frame inside the end debounce right after SpeechStart is Speech.
    let mut vad = VadEngine::new().with_threshold(100).with_speech_frames(1).with_silence_frames(3);
    assert_eq!(vad.process(&vec![2000i16; 480]), VadState::SpeechStart);
    assert_eq!(vad.process(&vec![0i16; 480]), VadState::Speech);
    // A loud frame one short of the start debounce right after SpeechEnd is Silence.
    let mut vad = VadEngine::new().with_threshold(100).with_speech_frames(2).with_silence_frames(1);
    let sp = vec![2000i16; 480];
    let sil = vec![0i16; 480];
    assert_eq!(vad.process(&sp), VadState::Silence);
    assert_eq!(vad.process(&sp), VadState::SpeechStart);
    assert_eq!(vad.process(&sil), VadState::SpeechEnd);
    assert_eq!(vad.process(&sp), VadState::Silence);
    assert_eq!(vad.process(&sp), VadState::SpeechStart);
}

#[test]
fn speech_starts_and_ends_on_the_nth_frame() {
    let loud = vec![1000i16; 10];
    let quiet = vec![0i16; 10];
    let mut vad = VadEngine::new().with_threshold(100).with_speech_frames(4).with_silence_frames(3);
    let starts: Vec<VadState> = (0..6).map(|_| vad.process(&loud)).collect();
    assert_eq!(
        starts,
        vec![
            VadState::Silence,
            VadState::Silence,
            VadState::Silence,
            VadState::SpeechStart,
            VadState::Speech,
            VadState::Speech
        ]
    );
    let ends: Vec<VadState> = (0..5).map(|_| vad.process(&quiet)).collect();
    assert_eq!(
        ends,
        vec![VadState::Speech, VadState::Speech, VadState::SpeechEnd, VadState::Silence, VadState::Silence]
    );
}

#[test]
fn default_matches_new() {
    let mut a = VadEngine::default();
    let mut b = VadEngine::new();
    let loud = vec![1000i16; 10];
    for _ in 0..4 {
        assert_eq!(a.process(&loud), b.process(&loud));
    }
    assert_eq!(a.prev_state(), VadState::Speech);
}

#[test]
fn reset_forgets_history() {
    // Two loud frames of a needed three, then a reset: the detector behaves
    // as a fresh one with the same settings.
    let loud = vec![1000i16; 10];
    let mut used = VadEngine::new().with_threshold(100).with_speech_frames(3).with_silence_frames(2);
    assert_eq!(used.process(&loud), VadState::Silence);
    assert_eq!(used.process(&loud), VadState::Silence);
    used.reset();
    let mut fresh = VadEngine::new().with_threshold(100).with_speech_frames(3).with_silence_frames(2);
    for _ in 0..4 {
        assert_eq!(used.process(&loud), fresh.process(&loud));
    }
    assert_eq!(used.prev_state(), VadState::Speech);
}
